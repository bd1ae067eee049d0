//! Properties of the library that span its operations.
use vstd::prelude::*;
use crate::text::{dec, digit_char, is_digit};
use crate::signature::{party_signature, instant_assign_signature, misc_key, share_part, received_parts, or_zero, selection_part, first_skin_for, first_custom_for, str_or_empty};
use crate::text::join_seq;
use crate::sorting::{sorted_items, lemma_sorted_items_permutes, sorted_distinct_of};
use crate::sorting::{lemma_map_same_items, lemma_sorted_items_same_items, lemma_sorted_distinct_same_values};
use crate::misc::MiscItem;
use crate::json::Json;
use crate::champ_select::{distinct_positive, lemma_add_new_positives_props, swift_play_selections, instant_assign_session_champions_of, selected_champion_id, first_completed_pick, first_completed_pick_in_groups, first_team_champion, lobby_slot_champions};
use crate::lobby::{lobby_champions, first_matching_champion, first_matching_champion_puuid, first_matching_champion_either, first_selected_bench, first_bench, SelectionMatch, single_mode_champion, matchmaking_override, locked_member_champions, aram_fallback, lobby_flags};
use crate::party::{InMemoryReceivedSkin, received_key, should_inject_verdict, sharing_friends, friends_in_party};
use crate::config::{SavedConfig, SkinData, CustomSkinData, PairedFriend, skins_without, customs_without_champion, customs_without_id, is_paired, paired_with, friends_without, official_pick};
use crate::watcher::{WatcherState, reinjection_allowed};
use crate::flow::party_injection_eligible;

verus! {

proof fn lemma_dec_digits(n: nat)
    ensures
        dec(n).len() >= 1,
        n >= 10 ==> dec(n).len() >= 2,
        forall|i: int| 0 <= i < dec(n).len() ==> is_digit(#[trigger] dec(n)[i]),
    decreases n,
{
    if n >= 10 {
        lemma_dec_digits(n / 10);
        assert forall|i: int| 0 <= i < dec(n).len() implies is_digit(#[trigger] dec(n)[i]) by {
            if i < dec(n / 10).len() {
                assert(dec(n)[i] == dec(n / 10)[i]);
            }
        }
    }
}

proof fn lemma_digit_char_injective(a: nat, b: nat)
    requires
        a < 10,
        b < 10,
        digit_char(a) == digit_char(b),
    ensures
        a == b,
{
}

/// Distinct numbers have distinct decimal notations.
pub proof fn lemma_dec_injective(x: nat, y: nat)
    requires
        dec(x) == dec(y),
    ensures
        x == y,
    decreases x,
{
    lemma_dec_digits(x);
    lemma_dec_digits(y);
    if x < 10 && y < 10 {
        assert(dec(x) =~= seq![digit_char(x)]);
        assert(dec(y) =~= seq![digit_char(y)]);
        assert(dec(x)[0] == digit_char(x));
        assert(dec(y)[0] == digit_char(y));
        lemma_digit_char_injective(x, y);
    } else if x >= 10 && y >= 10 {
        assert(dec(x).last() == digit_char(x % 10));
        assert(dec(y).last() == digit_char(y % 10));
        assert(dec(x).last() == dec(y).last());
        lemma_digit_char_injective(x % 10, y % 10);
        assert(dec(x).drop_last() =~= dec(x / 10));
        assert(dec(y).drop_last() =~= dec(y / 10));
        lemma_dec_injective(x / 10, y / 10);
    }
}

/// Whether a string is empty or starts with something other than a digit.
pub open spec fn starts_non_digit(x: Seq<char>) -> bool {
    x.len() == 0 || !is_digit(x[0])
}

proof fn lemma_digits_then_separator(a: Seq<char>, b: Seq<char>, x: Seq<char>, y: Seq<char>)
    requires
        forall|i: int| 0 <= i < a.len() ==> is_digit(#[trigger] a[i]),
        forall|i: int| 0 <= i < b.len() ==> is_digit(#[trigger] b[i]),
        starts_non_digit(x),
        starts_non_digit(y),
        a != b,
    ensures
        a + x != b + y,
{
    if a + x == b + y {
        if a.len() == b.len() {
            assert((a + x).subrange(0, a.len() as int) =~= a);
            assert((b + y).subrange(0, b.len() as int) =~= b);
        } else if a.len() < b.len() {
            if x.len() == 0 {
                assert((a + x).len() < (b + y).len());
            } else {
                assert((a + x)[a.len() as int] == x[0]);
                assert((b + y)[a.len() as int] == b[a.len() as int]);
            }
        } else {
            if y.len() == 0 {
                assert((a + x).len() > (b + y).len());
            } else {
                assert((b + y)[b.len() as int] == y[0]);
                assert((a + x)[b.len() as int] == a[b.len() as int]);
            }
        }
    }
}

proof fn lemma_cancel_prefix(p: Seq<char>, u: Seq<char>, v: Seq<char>)
    requires
        p + u == p + v,
    ensures
        u == v,
{
    assert((p + u).subrange(p.len() as int, (p + u).len() as int) =~= u);
    assert((p + v).subrange(p.len() as int, (p + v).len() as int) =~= v);
}

/// The party-injection signature tells apart different champions and different
/// numbers of received skins: a reroll, or a friend's first share, always calls
/// for a new injection.
pub proof fn lemma_party_signature_distinguishes(
    c1: u32,
    r1: Seq<(Seq<char>, InMemoryReceivedSkin)>,
    c2: u32,
    r2: Seq<(Seq<char>, InMemoryReceivedSkin)>,
)
    requires
        c1 != c2 || r1.len() != r2.len(),
    ensures
        party_signature(c1, r1) != party_signature(c2, r2),
{
    reveal_strlit("champion:");
    reveal_strlit(":received:");
    reveal_strlit("|");
    let p = "champion:"@;
    let m = ":received:"@;
    let tail1 = if r1.len() == 0 { seq![] } else { "|"@ + crate::text::join_seq(crate::sorting::sorted_items(crate::signature::received_parts(r1)), "|"@) };
    let tail2 = if r2.len() == 0 { seq![] } else { "|"@ + crate::text::join_seq(crate::sorting::sorted_items(crate::signature::received_parts(r2)), "|"@) };
    assert(party_signature(c1, r1) =~= p + (dec(c1 as nat) + (m + dec(r1.len()) + tail1)));
    assert(party_signature(c2, r2) =~= p + (dec(c2 as nat) + (m + dec(r2.len()) + tail2)));
    lemma_dec_digits(c1 as nat);
    lemma_dec_digits(c2 as nat);
    lemma_dec_digits(r1.len());
    lemma_dec_digits(r2.len());
    if party_signature(c1, r1) == party_signature(c2, r2) {
        lemma_cancel_prefix(p, dec(c1 as nat) + (m + dec(r1.len()) + tail1), dec(c2 as nat) + (m + dec(r2.len()) + tail2));
        if c1 != c2 {
            if dec(c1 as nat) == dec(c2 as nat) {
                lemma_dec_injective(c1 as nat, c2 as nat);
            }
            assert((m + dec(r1.len()) + tail1)[0] == ':');
            assert((m + dec(r2.len()) + tail2)[0] == ':');
            lemma_digits_then_separator(dec(c1 as nat), dec(c2 as nat), m + dec(r1.len()) + tail1, m + dec(r2.len()) + tail2);
        } else {
            let q = p + dec(c1 as nat) + m;
            assert(party_signature(c1, r1) =~= q + (dec(r1.len()) + tail1));
            assert(party_signature(c2, r2) =~= q + (dec(r2.len()) + tail2));
            lemma_cancel_prefix(q, dec(r1.len()) + tail1, dec(r2.len()) + tail2);
            if dec(r1.len()) == dec(r2.len()) {
                lemma_dec_injective(r1.len(), r2.len());
            }
            if r1.len() != 0 {
                assert(tail1[0] == '|');
            }
            if r2.len() != 0 {
                assert(tail2[0] == '|');
            }
            lemma_digits_then_separator(dec(r1.len()), dec(r2.len()), tail1, tail2);
        }
    }
}

proof fn lemma_skins_without_excludes(s: Seq<SkinData>, c: u32)
    ensures
        forall|i: int| 0 <= i < skins_without(s, c).len() ==> (#[trigger] skins_without(s, c)[i]).champion_id != c,
    decreases s.len(),
{
    if s.len() > 0 {
        lemma_skins_without_excludes(s.drop_last(), c);
    }
}

proof fn lemma_customs_without_excludes(s: Seq<CustomSkinData>, c: u32)
    ensures
        forall|i: int| 0 <= i < customs_without_champion(s, c).len() ==> (#[trigger] customs_without_champion(s, c)[i]).champion_id != c,
    decreases s.len(),
{
    if s.len() > 0 {
        lemma_customs_without_excludes(s.drop_last(), c);
        let prev = customs_without_champion(s.drop_last(), c);
        assert forall|i: int| 0 <= i < customs_without_champion(s, c).len() implies (#[trigger] customs_without_champion(s, c)[i]).champion_id != c by {
            if i < prev.len() {
                assert(customs_without_champion(s, c)[i] == prev[i]);
            }
        }
    }
}

/// After a choice for a champion, the champion has at most one choice across
/// official and custom skins: an official entry only when an official skin for
/// it was given, a custom entry only when no official one was, each the last
/// of its list.
pub proof fn lemma_selection_exclusive(
    skins: Seq<SkinData>,
    customs: Seq<CustomSkinData>,
    c: u32,
    skin_data: Option<SkinData>,
    custom_data: Option<CustomSkinData>,
)
    ensures
        ({
            let s2 = skins_without(skins, c) + match skin_data {
                Some(s) => if s.champion_id == c { seq![s] } else { seq![] },
                None => seq![],
            };
            let k2 = customs_without_champion(customs, c) + match custom_data {
                Some(k) => if k.champion_id == c && !official_pick(skin_data, c) { seq![k] } else { seq![] },
                None => seq![],
            };
            &&& forall|i: int| 0 <= i < s2.len() && (#[trigger] s2[i]).champion_id == c
                ==> i == s2.len() - 1 && official_pick(skin_data, c)
            &&& forall|j: int| 0 <= j < k2.len() && (#[trigger] k2[j]).champion_id == c
                ==> j == k2.len() - 1 && !official_pick(skin_data, c)
        }),
{
    lemma_skins_without_excludes(skins, c);
    lemma_customs_without_excludes(customs, c);
    let s1 = skins_without(skins, c);
    let k1 = customs_without_champion(customs, c);
    let s2 = s1 + match skin_data {
        Some(s) => if s.champion_id == c { seq![s] } else { seq![] },
        None => seq![],
    };
    let k2 = k1 + match custom_data {
        Some(k) => if k.champion_id == c && !official_pick(skin_data, c) { seq![k] } else { seq![] },
        None => seq![],
    };
    assert forall|i: int| 0 <= i < s2.len() && (#[trigger] s2[i]).champion_id == c
        implies i == s2.len() - 1 && official_pick(skin_data, c) by {
        if i < s1.len() {
            assert(s2[i] == s1[i]);
        }
    }
    assert forall|j: int| 0 <= j < k2.len() && (#[trigger] k2[j]).champion_id == c
        implies j == k2.len() - 1 && !official_pick(skin_data, c) by {
        if j < k1.len() {
            assert(k2[j] == k1[j]);
        }
    }
}

proof fn lemma_customs_without_id_excludes(s: Seq<CustomSkinData>, id: Seq<char>)
    ensures
        forall|i: int| 0 <= i < customs_without_id(s, id).len() ==> (#[trigger] customs_without_id(s, id)[i]).id@ != id,
    decreases s.len(),
{
    if s.len() > 0 {
        lemma_customs_without_id_excludes(s.drop_last(), id);
        let prev = customs_without_id(s.drop_last(), id);
        assert forall|i: int| 0 <= i < customs_without_id(s, id).len() implies (#[trigger] customs_without_id(s, id)[i]).id@ != id by {
            if i < prev.len() {
                assert(customs_without_id(s, id)[i] == prev[i]);
            }
        }
    }
}

/// Saving a custom skin leaves exactly one custom skin with its id: the saved one, last.
pub proof fn lemma_custom_skin_replaced(customs: Seq<CustomSkinData>, saved: CustomSkinData)
    ensures
        ({
            let s2 = customs_without_id(customs, saved.id@).push(saved);
            &&& s2.last() == saved
            &&& forall|i: int| 0 <= i < s2.len() && (#[trigger] s2[i]).id@ == saved.id@ ==> i == s2.len() - 1
        }),
{
    lemma_customs_without_id_excludes(customs, saved.id@);
    let s2 = customs_without_id(customs, saved.id@).push(saved);
    assert forall|i: int| 0 <= i < s2.len() && (#[trigger] s2[i]).id@ == saved.id@ implies i == s2.len() - 1 by {
        if i < s2.len() - 1 {
            assert(s2[i] == customs_without_id(customs, saved.id@)[i]);
        }
    }
}

proof fn lemma_friends_without_excludes(s: Seq<PairedFriend>, id: Seq<char>)
    ensures
        !is_paired(friends_without(s, id), id),
    decreases s.len(),
{
    if s.len() > 0 {
        lemma_friends_without_excludes(s.drop_last(), id);
        let prev = friends_without(s.drop_last(), id);
        if s.last().summoner_id@ != id {
            assert forall|i: int| 0 <= i < prev.push(s.last()).len() implies (#[trigger] prev.push(s.last())[i]).summoner_id@ != id by {
                if i < prev.len() {
                    assert(prev.push(s.last())[i] == prev[i]);
                }
            }
        }
    }
}

/// Pairing is idempotent: after pairing a friend the friend is paired, and
/// pairing the same friend again changes nothing. Unpairing then leaves no
/// friend with that summoner id.
pub proof fn lemma_pairing_idempotent(friends: Seq<PairedFriend>, f: PairedFriend)
    ensures
        is_paired(paired_with(friends, f), f.summoner_id@),
        paired_with(paired_with(friends, f), f) == paired_with(friends, f),
        !is_paired(friends_without(paired_with(friends, f), f.summoner_id@), f.summoner_id@),
{
    assert(friends.push(f)[friends.len() as int] == f);
    lemma_friends_without_excludes(paired_with(friends, f), f.summoner_id@);
}

/// After a re-injection at time `t`, another is refused until the cooldown passed;
/// before any re-injection, one is always allowed.
pub proof fn lemma_reinjection_cooldown(t: u64, now: u64, cooldown: u64)
    ensures
        t != 0 && now >= t && now - t < cooldown ==> !reinjection_allowed(t, now, cooldown),
        t != 0 && now >= t && now - t >= cooldown ==> reinjection_allowed(t, now, cooldown),
        t == 0 ==> reinjection_allowed(t, now, cooldown),
{
}

/// Party-mode injection happens at most once per champion-select phase: once
/// the phase is marked as injected, no injection is eligible until the phase
/// (or the champion) changes.
pub proof fn lemma_party_injection_once_per_phase(s: WatcherState, should_inject: bool, now: u64)
    requires
        s.party_injection_done_this_phase,
    ensures
        !party_injection_eligible(s, should_inject, now),
{
}

/// A message recorded as dealt with is known as dealt with afterwards.
pub proof fn lemma_processed_recorded(ids: Seq<Seq<char>>, id: Seq<char>)
    ensures
        (if ids.contains(id) { ids } else { ids.push(id) }).contains(id),
{
    if !ids.contains(id) {
        assert(ids.push(id)[ids.len() as int] == id);
    }
}


/// The instant-assign signature depends only on which champions there are
/// and which items are selected: not on the order in which champions are
/// listed or repeated, nor on the order of the items.
pub proof fn lemma_instant_assign_signature_order_free(
    a: Seq<u32>,
    b: Seq<u32>,
    config: SavedConfig,
    m1: Seq<MiscItem>,
    m2: Seq<MiscItem>,
)
    requires
        forall|x: u32| a.contains(x) <==> b.contains(x),
        m1.to_multiset() == m2.to_multiset(),
    ensures
        instant_assign_signature(a, config, m1) == instant_assign_signature(b, config, m2),
{
    lemma_sorted_distinct_same_values(a, b);
    let key = |m: MiscItem| misc_key(m);
    lemma_map_same_items(m1, m2, key);
    lemma_sorted_items_same_items(m1.map_values(key), m2.map_values(key));
}

/// The party-injection signature does not depend on the order in which the
/// received skins are kept.
pub proof fn lemma_party_signature_order_free(
    c: u32,
    r1: Seq<(Seq<char>, InMemoryReceivedSkin)>,
    r2: Seq<(Seq<char>, InMemoryReceivedSkin)>,
)
    requires
        r1.to_multiset() == r2.to_multiset(),
    ensures
        party_signature(c, r1) == party_signature(c, r2),
{
    vstd::seq_lib::to_multiset_len(r1);
    vstd::seq_lib::to_multiset_len(r2);
    let part = |e: (Seq<char>, InMemoryReceivedSkin)| share_part(e.1);
    lemma_map_same_items(r1, r2, part);
    assert(received_parts(r1) == r1.map_values(part));
    assert(received_parts(r2) == r2.map_values(part));
    lemma_sorted_items_same_items(received_parts(r1), received_parts(r2));
}


proof fn lemma_first_completed_pick_positive(acts: Seq<Json>, local: i64)
    ensures
        first_completed_pick(acts, local) matches Some(c) ==> c > 0,
    decreases acts.len(),
{
    if acts.len() > 0 {
        lemma_first_completed_pick_positive(acts.drop_first(), local);
    }
}

proof fn lemma_first_completed_pick_in_groups_positive(groups: Seq<Json>, local: i64)
    ensures
        first_completed_pick_in_groups(groups, local) matches Some(c) ==> c > 0,
    decreases groups.len(),
{
    if groups.len() > 0 {
        if let Some(acts) = crate::json::as_array_of(groups[0]) {
            lemma_first_completed_pick_positive(acts, local);
        }
        lemma_first_completed_pick_in_groups_positive(groups.drop_first(), local);
    }
}

proof fn lemma_first_team_champion_positive(team: Seq<Json>, local: i64)
    ensures
        first_team_champion(team, local) matches Some(c) ==> c > 0,
    decreases team.len(),
{
    if team.len() > 0 {
        lemma_first_team_champion_positive(team.drop_first(), local);
    }
}

/// The champion found for the local player in a champion-select session is
/// always a real champion id (positive).
pub proof fn lemma_selected_champion_positive(j: Json)
    ensures
        selected_champion_id(j) matches Some(c) ==> c > 0,
{
    if let Some(groups) = crate::json::get_array(j, "actions"@) {
        if let Some(local) = crate::json::get_i64(j, "localPlayerCellId"@) {
            lemma_first_completed_pick_in_groups_positive(groups, local);
        }
    }
    if let Some(team) = crate::json::get_array(j, "myTeam"@) {
        if let Some(local) = crate::json::get_i64(j, "localPlayerCellId"@) {
            lemma_first_team_champion_positive(team, local);
        }
    }
}

proof fn lemma_collected_from_nothing(xs: Seq<Option<i64>>)
    ensures
        distinct_positive(crate::champ_select::add_new_positives(seq![], xs)),
{
    lemma_add_new_positives_props(seq![], xs);
}

/// The instant-assign champions of a session hold only real champion ids,
/// each once; so do the champions of a lobby's slots.
pub proof fn lemma_session_champions_distinct_positive(j: Json)
    ensures
        distinct_positive(swift_play_selections(j)),
        distinct_positive(instant_assign_session_champions_of(j)),
        distinct_positive(lobby_slot_champions(j)),
{
    if let Some(gd) = crate::json::jget(j, "gameData"@) {
        if let Some(sels) = crate::json::get_array(gd, "playerChampionSelections"@) {
            if let Some(lid) = crate::champ_select::local_selection_summoner_id(j) {
                lemma_collected_from_nothing(crate::champ_select::selection_champion_candidates(sels, lid));
            }
        }
        if let Some(sels) = crate::json::get_array(gd, "selectedChampions"@) {
            lemma_collected_from_nothing(crate::champ_select::member_ids(sels, "championId"@));
        }
    }
    if let Some(team) = crate::json::get_array(j, "myTeam"@) {
        lemma_collected_from_nothing(crate::champ_select::team_name_candidates(team, crate::champ_select::player_name_of(j)));
    }
    if let Some(roles) = crate::json::get_array(j, "roleAssignments"@) {
        lemma_collected_from_nothing(crate::champ_select::member_ids(roles, "championId"@));
    }
    if let Some(lm) = crate::json::jget(j, "localMember"@) {
        if let Some(slots) = crate::json::get_array(lm, "playerSlots"@) {
            lemma_collected_from_nothing(crate::champ_select::member_ids(slots, "championId"@));
        }
    }
    let base = swift_play_selections(j);
    assert(distinct_positive(base));
    if let Some(gd) = crate::json::jget(j, "gameData"@) {
        let with_selected = match crate::json::get_array(gd, "selectedChampions"@) {
            Some(sel) => {
                lemma_add_new_positives_props(base, crate::champ_select::member_ids(sel, "championId"@));
                crate::champ_select::add_new_positives(base, crate::champ_select::member_ids(sel, "championId"@))
            },
            None => base,
        };
        if let Some(pcs) = crate::json::get_array(gd, "playerChampionSelections"@) {
            lemma_add_new_positives_props(with_selected, crate::champ_select::all_selection_champion_candidates(pcs));
        }
    }
}

proof fn lemma_first_matching_positive(sels: Seq<Json>, m: SelectionMatch)
    ensures
        first_matching_champion(sels, m) matches Some(c) ==> c > 0,
    decreases sels.len(),
{
    if sels.len() > 0 {
        lemma_first_matching_positive(sels.drop_first(), m);
    }
}

proof fn lemma_first_matching_puuid_positive(sels: Seq<Json>, p: Seq<char>)
    ensures
        first_matching_champion_puuid(sels, p) matches Some(c) ==> c > 0,
    decreases sels.len(),
{
    if sels.len() > 0 {
        lemma_first_matching_puuid_positive(sels.drop_first(), p);
    }
}

proof fn lemma_first_matching_either_positive(sels: Seq<Json>, p: Seq<char>, sid: i64)
    ensures
        first_matching_champion_either(sels, p, sid) matches Some(c) ==> c > 0,
    decreases sels.len(),
{
    if sels.len() > 0 {
        lemma_first_matching_either_positive(sels.drop_first(), p, sid);
    }
}

proof fn lemma_bench_positive(bench: Seq<Json>)
    ensures
        first_selected_bench(bench) matches Some(c) ==> c > 0,
        first_bench(bench) matches Some(c) ==> c > 0,
    decreases bench.len(),
{
    if bench.len() > 0 {
        lemma_bench_positive(bench.drop_first());
    }
}

proof fn lemma_single_mode_distinct_positive(j: Json, sels: Seq<Json>, current: Option<(Seq<char>, i64)>)
    ensures
        distinct_positive(single_mode_champion(j, sels, current)),
{
    if let Some(lp) = crate::json::jget(j, "localPlayerSelection"@) {
        if let Some(lid) = crate::json::get_i64(lp, "summonerId"@) {
            lemma_first_matching_positive(sels, SelectionMatch::BySummoner(lid));
        }
    }
    if let Some(p) = crate::lobby::local_puuid(j) {
        lemma_first_matching_puuid_positive(sels, p);
    }
    if let Some(c) = crate::json::get_i64(j, "localPlayerCellId"@) {
        lemma_first_matching_positive(sels, SelectionMatch::ByCell(c));
    }
    if let Some((p, sid)) = current {
        lemma_first_matching_either_positive(sels, p, sid);
    }
}

/// The champions found in a lobby or session, in any mode, hold only real
/// champion ids, each once.
pub proof fn lemma_lobby_champions_distinct_positive(j: Json, mode: Seq<char>, current: Option<(Seq<char>, i64)>, multi: bool)
    ensures
        distinct_positive(lobby_champions(j, mode, current, multi)),
{
    let f = lobby_flags(j, mode);
    let single = f.brawl || f.aram;
    if let Some(lm) = crate::json::jget(j, "localMember"@) {
        if let Some(slots) = crate::json::get_array(lm, "playerSlots"@) {
            lemma_collected_from_nothing(crate::champ_select::member_ids(
                slots.take(crate::lobby::slots_to_check(slots.len(), single) as int), "championId"@));
            lemma_collected_from_nothing(crate::lobby::locked_slot_champions(
                slots.take(crate::lobby::slots_to_check(slots.len(), f.brawl || f.aram) as int), f));
        }
    }
    if let Some(gd) = crate::json::jget(j, "gameData"@) {
        if let Some(s) = crate::json::get_array(gd, "playerChampionSelections"@) {
            lemma_single_mode_distinct_positive(j, s, current);
            lemma_collected_from_nothing(crate::champ_select::member_ids(s, "championId"@));
        }
    }
    if let Some(team) = crate::json::get_array(j, "myTeam"@) {
        if let Some(cell) = crate::json::get_i64(j, "localPlayerCellId"@) {
            lemma_first_team_champion_positive(team, cell);
        }
    }
    if let Some(bench) = crate::json::get_array(j, "benchChampions"@) {
        lemma_bench_positive(bench);
    }
    let b = locked_member_champions(j, f);
    assert(distinct_positive(b));
    if matchmaking_override(j, f, current) is None {
        let c: Result<Seq<i64>, Seq<i64>> = if f.aram && b.len() == 0 { aram_fallback(j) } else { Ok(b) };
        if let Ok(ids) = c {
            assert(distinct_positive(ids));
            if multi {
                if let Some(lm) = crate::json::jget(j, "localMember"@) {
                    if let Some(slots) = crate::json::get_array(lm, "playerSlots"@) {
                        if slots.len() > 0 {
                            lemma_add_new_positives_props(ids, slots.skip(1).map_values(|s: Json| crate::lobby::extra_slot_champion(s, f, true)));
                        }
                    }
                }
            }
        }
    }
}


proof fn lemma_split_at_last(x: Seq<char>, y: Seq<char>, x2: Seq<char>, y2: Seq<char>, c: char)
    requires
        x + seq![c] + y == x2 + seq![c] + y2,
        !y.contains(c),
        !y2.contains(c),
    ensures
        x == x2,
        y == y2,
{
    let s = x + seq![c] + y;
    if y.len() < y2.len() {
        let k = s.len() - y.len() - 1;
        assert(s[k] == c);
        assert((x2 + seq![c] + y2)[k] == y2[k - x2.len() - 1]);
        assert(y2.contains(c));
    } else if y2.len() < y.len() {
        let k = s.len() - y2.len() - 1;
        assert((x2 + seq![c] + y2)[k] == c);
        assert(s[k] == y[k - x.len() - 1]);
        assert(y.contains(c));
    }
    assert(s.subrange(s.len() - y.len(), s.len() as int) =~= y);
    assert((x2 + seq![c] + y2).subrange(s.len() - y2.len(), s.len() as int) =~= y2);
    assert(s.subrange(0, x.len() as int) =~= x);
    assert((x2 + seq![c] + y2).subrange(0, x2.len() as int) =~= x2);
}

/// Joining strings that hold no separator character loses nothing: two lists
/// of the same length that join to the same text are equal.
pub proof fn lemma_join_injective(a: Seq<Seq<char>>, b: Seq<Seq<char>>, c: char)
    requires
        a.len() == b.len(),
        forall|i: int| 0 <= i < a.len() ==> !(#[trigger] a[i]).contains(c),
        forall|i: int| 0 <= i < b.len() ==> !(#[trigger] b[i]).contains(c),
        join_seq(a, seq![c]) == join_seq(b, seq![c]),
    ensures
        a == b,
    decreases a.len(),
{
    if a.len() == 0 {
        assert(a =~= b);
    } else if a.len() == 1 {
        assert(a =~= seq![a[0]]);
        assert(b =~= seq![b[0]]);
    } else {
        assert(!a.last().contains(c));
        assert(!b.last().contains(c));
        lemma_split_at_last(join_seq(a.drop_last(), seq![c]), a.last(), join_seq(b.drop_last(), seq![c]), b.last(), c);
        assert forall|i: int| 0 <= i < a.drop_last().len() implies !(#[trigger] a.drop_last()[i]).contains(c) by {
            assert(a.drop_last()[i] == a[i]);
        }
        assert forall|i: int| 0 <= i < b.drop_last().len() implies !(#[trigger] b.drop_last()[i]).contains(c) by {
            assert(b.drop_last()[i] == b[i]);
        }
        lemma_join_injective(a.drop_last(), b.drop_last(), c);
        assert(a =~= a.drop_last().push(a.last()));
        assert(b =~= b.drop_last().push(b.last()));
    }
}

proof fn lemma_digits_no_char(n: nat, c: char)
    requires
        !is_digit(c),
    ensures
        !dec(n).contains(c),
{
    lemma_dec_digits(n);
    if dec(n).contains(c) {
        let k = choose|k: int| 0 <= k < dec(n).len() && dec(n)[k] == c;
        assert(is_digit(dec(n)[k]));
    }
}

proof fn lemma_concat_no_char(x: Seq<char>, y: Seq<char>, c: char)
    requires
        !x.contains(c),
        !y.contains(c),
    ensures
        !(x + y).contains(c),
{
    if (x + y).contains(c) {
        let k = choose|k: int| 0 <= k < (x + y).len() && (x + y)[k] == c;
        if k < x.len() {
            assert(x[k] == c);
        } else {
            assert(y[k - x.len()] == c);
        }
    }
}

proof fn lemma_share_part_no_bar(v: InMemoryReceivedSkin)
    requires
        !v.from_summoner_id@.contains('|'),
    ensures
        !share_part(v).contains('|'),
{
    let colon: Seq<char> = seq![':'];
    assert(!colon.contains('|')) by {
        if colon.contains('|') {
            let k = choose|k: int| 0 <= k < colon.len() && colon[k] == '|';
        }
    }
    lemma_digits_no_char(v.champion_id as nat, '|');
    lemma_digits_no_char(v.skin_id as nat, '|');
    lemma_digits_no_char(or_zero(v.chroma_id), '|');
    let a = v.from_summoner_id@ + colon;
    lemma_concat_no_char(v.from_summoner_id@, colon, '|');
    let b = a + dec(v.champion_id as nat);
    lemma_concat_no_char(a, dec(v.champion_id as nat), '|');
    lemma_concat_no_char(b, colon, '|');
    let d = b + colon + dec(v.skin_id as nat);
    lemma_concat_no_char(b + colon, dec(v.skin_id as nat), '|');
    lemma_concat_no_char(d, colon, '|');
    lemma_concat_no_char(d + colon, dec(or_zero(v.chroma_id)), '|');
    assert(share_part(v) =~= d + colon + dec(or_zero(v.chroma_id)));
}

proof fn lemma_share_part_tells_skins_apart(v1: InMemoryReceivedSkin, v2: InMemoryReceivedSkin)
    requires
        v1.from_summoner_id@ == v2.from_summoner_id@,
        v1.champion_id == v2.champion_id,
        v1.skin_id != v2.skin_id || or_zero(v1.chroma_id) != or_zero(v2.chroma_id),
    ensures
        share_part(v1) != share_part(v2),
{
    let colon: Seq<char> = seq![':'];
    let p = v1.from_summoner_id@ + colon + dec(v1.champion_id as nat) + colon;
    let t1 = colon + dec(or_zero(v1.chroma_id));
    let t2 = colon + dec(or_zero(v2.chroma_id));
    assert(share_part(v1) =~= p + (dec(v1.skin_id as nat) + t1));
    assert(share_part(v2) =~= p + (dec(v2.skin_id as nat) + t2));
    if share_part(v1) == share_part(v2) {
        lemma_cancel_prefix(p, dec(v1.skin_id as nat) + t1, dec(v2.skin_id as nat) + t2);
        lemma_dec_digits(v1.skin_id as nat);
        lemma_dec_digits(v2.skin_id as nat);
        if v1.skin_id != v2.skin_id {
            if dec(v1.skin_id as nat) == dec(v2.skin_id as nat) {
                lemma_dec_injective(v1.skin_id as nat, v2.skin_id as nat);
            }
            assert(t1[0] == ':');
            assert(t2[0] == ':');
            lemma_digits_then_separator(dec(v1.skin_id as nat), dec(v2.skin_id as nat), t1, t2);
        } else {
            lemma_cancel_prefix(dec(v1.skin_id as nat), t1, t2);
            lemma_cancel_prefix(colon, dec(or_zero(v1.chroma_id)), dec(or_zero(v2.chroma_id)));
            lemma_dec_injective(or_zero(v1.chroma_id), or_zero(v2.chroma_id));
        }
    }
}

/// Sorting two lists of strings that differ in one place gives different
/// results, and the sorted lists hold only strings of the lists.
proof fn lemma_sorted_after_update(s: Seq<Seq<char>>, i: int, x: Seq<char>)
    requires
        0 <= i < s.len(),
        s[i] != x,
    ensures
        sorted_items(s) != sorted_items(s.update(i, x)),
        sorted_items(s).len() == s.len(),
        sorted_items(s.update(i, x)).len() == s.len(),
{
    broadcast use vstd::multiset::group_multiset_axioms;
    let t = s.update(i, x);
    lemma_sorted_items_permutes(s);
    lemma_sorted_items_permutes(t);
    vstd::seq_lib::to_multiset_update(s, i, x);
    vstd::seq_lib::to_multiset_len(s);
    vstd::seq_lib::to_multiset_len(t);
    vstd::seq_lib::to_multiset_len(sorted_items(s));
    vstd::seq_lib::to_multiset_len(sorted_items(t));
    assert(t.to_multiset().count(x) == s.to_multiset().count(x) + 1);
}

proof fn lemma_sorted_members(s: Seq<Seq<char>>, k: int)
    requires
        0 <= k < sorted_items(s).len(),
    ensures
        s.contains(sorted_items(s)[k]),
{
    lemma_sorted_items_permutes(s);
    let x = sorted_items(s)[k];
    vstd::seq_lib::to_multiset_contains(sorted_items(s), x);
    assert(sorted_items(s).contains(x));
    vstd::seq_lib::to_multiset_contains(s, x);
}

/// The party-injection signature changes when a friend's shared skin changes:
/// where one stored skin gets another skin or chroma (and no sender id holds
/// `|`), the signature differs.
pub proof fn lemma_party_signature_sees_skin_change(
    c: u32,
    r: Seq<(Seq<char>, InMemoryReceivedSkin)>,
    i: int,
    v: InMemoryReceivedSkin,
)
    requires
        0 <= i < r.len(),
        forall|k: int| 0 <= k < r.len() ==> !(#[trigger] r[k]).1.from_summoner_id@.contains('|'),
        v.from_summoner_id@ == r[i].1.from_summoner_id@,
        v.champion_id == r[i].1.champion_id,
        v.skin_id != r[i].1.skin_id || or_zero(v.chroma_id) != or_zero(r[i].1.chroma_id),
    ensures
        party_signature(c, r) != party_signature(c, r.update(i, (r[i].0, v))),
{
    let r2 = r.update(i, (r[i].0, v));
    let p1 = received_parts(r);
    let p2 = received_parts(r2);
    assert(p2 =~= p1.update(i, share_part(v)));
    lemma_share_part_tells_skins_apart(r[i].1, v);
    lemma_sorted_after_update(p1, i, share_part(v));
    let s1 = sorted_items(p1);
    let s2 = sorted_items(p2);
    assert forall|k: int| 0 <= k < s1.len() implies !(#[trigger] s1[k]).contains('|') by {
        lemma_sorted_members(p1, k);
        let j = choose|j: int| 0 <= j < p1.len() && p1[j] == s1[k];
        lemma_share_part_no_bar(r[j].1);
    }
    assert forall|k: int| 0 <= k < s2.len() implies !(#[trigger] s2[k]).contains('|') by {
        lemma_sorted_members(p2, k);
        let j = choose|j: int| 0 <= j < p2.len() && p2[j] == s2[k];
        if j == i {
            lemma_share_part_no_bar(v);
        } else {
            lemma_share_part_no_bar(r[j].1);
        }
    }
    if join_seq(s1, seq!['|']) == join_seq(s2, seq!['|']) {
        lemma_join_injective(s1, s2, '|');
    }
    reveal_strlit("|");
    assert("|"@ =~= seq!['|']);
    let head = "champion:"@ + dec(c as nat) + ":received:"@ + dec(r.len());
    assert(party_signature(c, r) == head + (seq!['|'] + join_seq(s1, seq!['|'])));
    assert(party_signature(c, r2) == head + (seq!['|'] + join_seq(s2, seq!['|'])));
    if party_signature(c, r) == party_signature(c, r2) {
        lemma_cancel_prefix(head, seq!['|'] + join_seq(s1, seq!['|']), seq!['|'] + join_seq(s2, seq!['|']));
        lemma_cancel_prefix(seq!['|'], join_seq(s1, seq!['|']), join_seq(s2, seq!['|']));
    }
}


proof fn lemma_cancel_suffix(u: Seq<char>, v: Seq<char>, q: Seq<char>)
    requires
        u + q == v + q,
    ensures
        u == v,
{
    assert((u + q).len() == u.len() + q.len());
    assert((v + q).len() == v.len() + q.len());
    assert(u.len() == v.len());
    assert forall|i: int| 0 <= i < u.len() implies u[i] == v[i] by {
        assert((u + q)[i] == u[i]);
        assert((v + q)[i] == v[i]);
    }
    assert(u =~= v);
}

proof fn lemma_first_skin_update(s: Seq<SkinData>, j: int, n: SkinData, x: u32)
    requires
        0 <= j < s.len(),
        s[j].champion_id != x,
        n.champion_id != x,
    ensures
        first_skin_for(s.update(j, n), x) == first_skin_for(s, x),
    decreases s.len(),
{
    let t = s.update(j, n);
    if s[0].champion_id != x {
        if j > 0 {
            assert(t.drop_first() =~= s.drop_first().update(j - 1, n));
            lemma_first_skin_update(s.drop_first(), j - 1, n, x);
        } else {
            assert(t.drop_first() =~= s.drop_first());
        }
    }
}

proof fn lemma_first_skin_at(s: Seq<SkinData>, j: int, c: u32)
    requires
        0 <= j < s.len(),
        s[j].champion_id == c,
        forall|k: int| 0 <= k < j ==> (#[trigger] s[k]).champion_id != c,
    ensures
        first_skin_for(s, c) == Some(s[j]),
    decreases j,
{
    if j > 0 {
        assert forall|k: int| 0 <= k < j - 1 implies (#[trigger] s.drop_first()[k]).champion_id != c by {
            assert(s.drop_first()[k] == s[k + 1]);
        }
        lemma_first_skin_at(s.drop_first(), j - 1, c);
    }
}

proof fn lemma_first_skin_member(s: Seq<SkinData>, c: u32)
    ensures
        first_skin_for(s, c) matches Some(y) ==> s.contains(y),
    decreases s.len(),
{
    if s.len() > 0 && s[0].champion_id != c {
        lemma_first_skin_member(s.drop_first(), c);
        if let Some(y) = first_skin_for(s.drop_first(), c) {
            let k = choose|k: int| 0 <= k < s.drop_first().len() && s.drop_first()[k] == y;
            assert(s[k + 1] == y);
        }
    } else if s.len() > 0 {
        assert(s[0] == s[0]);
    }
}

proof fn lemma_first_custom_member(s: Seq<CustomSkinData>, c: u32)
    ensures
        first_custom_for(s, c) matches Some(y) ==> s.contains(y),
    decreases s.len(),
{
    if s.len() > 0 && s[0].champion_id != c {
        lemma_first_custom_member(s.drop_first(), c);
        if let Some(y) = first_custom_for(s.drop_first(), c) {
            let k = choose|k: int| 0 <= k < s.drop_first().len() && s.drop_first()[k] == y;
            assert(s[k + 1] == y);
        }
    }
}

proof fn lemma_literal_no_bar()
    ensures
        !":"@.contains('|'),
        !":skin:"@.contains('|'),
        !":custom:"@.contains('|'),
        !":none"@.contains('|'),
{
    reveal_strlit(":");
    reveal_strlit(":skin:");
    reveal_strlit(":custom:");
    reveal_strlit(":none");
    assert(":"@ =~= seq![':']);
    assert(":skin:"@ =~= seq![':', 's', 'k', 'i', 'n', ':']);
    assert(":custom:"@ =~= seq![':', 'c', 'u', 's', 't', 'o', 'm', ':']);
    assert(":none"@ =~= seq![':', 'n', 'o', 'n', 'e']);
    if ":"@.contains('|') {
        let k = choose|k: int| 0 <= k < ":"@.len() && ":"@[k] == '|';
    }
    if ":skin:"@.contains('|') {
        let k = choose|k: int| 0 <= k < ":skin:"@.len() && ":skin:"@[k] == '|';
        assert(0 <= k < 6);
    }
    if ":custom:"@.contains('|') {
        let k = choose|k: int| 0 <= k < ":custom:"@.len() && ":custom:"@[k] == '|';
        assert(0 <= k < 8);
    }
    if ":none"@.contains('|') {
        let k = choose|k: int| 0 <= k < ":none"@.len() && ":none"@[k] == '|';
        assert(0 <= k < 5);
    }
}

/// No file name that a configuration holds contains `|`.
pub open spec fn files_without_bar(config: SavedConfig) -> bool {
    &&& forall|k: int| 0 <= k < config.skins@.len() ==> !str_or_empty((#[trigger] config.skins@[k]).skin_file).contains('|')
    &&& forall|k: int| 0 <= k < config.custom_skins@.len() ==> !(#[trigger] config.custom_skins@[k]).file_path@.contains('|')
}

proof fn lemma_selection_part_no_bar(config: SavedConfig, x: u32)
    requires
        files_without_bar(config),
    ensures
        !selection_part(config, x).contains('|'),
{
    lemma_literal_no_bar();
    lemma_digits_no_char(x as nat, '|');
    match first_skin_for(config.skins@, x) {
        Some(sk) => {
            lemma_first_skin_member(config.skins@, x);
            let k = choose|k: int| 0 <= k < config.skins@.len() && config.skins@[k] == sk;
            assert(!str_or_empty(config.skins@[k].skin_file).contains('|'));
            lemma_digits_no_char(sk.skin_id as nat, '|');
            lemma_digits_no_char(or_zero(sk.chroma_id), '|');
            let a = dec(x as nat) + ":skin:"@;
            lemma_concat_no_char(dec(x as nat), ":skin:"@, '|');
            lemma_concat_no_char(a, dec(sk.skin_id as nat), '|');
            lemma_concat_no_char(a + dec(sk.skin_id as nat), ":"@, '|');
            lemma_concat_no_char(a + dec(sk.skin_id as nat) + ":"@, dec(or_zero(sk.chroma_id)), '|');
            lemma_concat_no_char(a + dec(sk.skin_id as nat) + ":"@ + dec(or_zero(sk.chroma_id)), ":"@, '|');
            lemma_concat_no_char(a + dec(sk.skin_id as nat) + ":"@ + dec(or_zero(sk.chroma_id)) + ":"@, str_or_empty(sk.skin_file), '|');
        },
        None => match first_custom_for(config.custom_skins@, x) {
            Some(cu) => {
                lemma_first_custom_member(config.custom_skins@, x);
                let k = choose|k: int| 0 <= k < config.custom_skins@.len() && config.custom_skins@[k] == cu;
                assert(!config.custom_skins@[k].file_path@.contains('|'));
                lemma_concat_no_char(dec(x as nat), ":custom:"@, '|');
                lemma_concat_no_char(dec(x as nat) + ":custom:"@, cu.file_path@, '|');
            },
            None => {
                lemma_concat_no_char(dec(x as nat), ":none"@, '|');
            },
        },
    }
}

proof fn lemma_skin_part_tells_apart(x: u32, a: SkinData, b: SkinData)
    requires
        a.skin_id != b.skin_id || or_zero(a.chroma_id) != or_zero(b.chroma_id),
    ensures
        dec(x as nat) + ":skin:"@ + dec(a.skin_id as nat) + ":"@ + dec(or_zero(a.chroma_id)) + ":"@ + str_or_empty(a.skin_file)
            != dec(x as nat) + ":skin:"@ + dec(b.skin_id as nat) + ":"@ + dec(or_zero(b.chroma_id)) + ":"@ + str_or_empty(b.skin_file),
{
    reveal_strlit(":");
    assert(":"@ =~= seq![':']);
    let p = dec(x as nat) + ":skin:"@;
    let ta = ":"@ + dec(or_zero(a.chroma_id)) + ":"@ + str_or_empty(a.skin_file);
    let tb = ":"@ + dec(or_zero(b.chroma_id)) + ":"@ + str_or_empty(b.skin_file);
    let ua = dec(or_zero(a.chroma_id)) + (":"@ + str_or_empty(a.skin_file));
    let ub = dec(or_zero(b.chroma_id)) + (":"@ + str_or_empty(b.skin_file));
    let wa = dec(x as nat) + ":skin:"@ + dec(a.skin_id as nat) + ":"@ + dec(or_zero(a.chroma_id)) + ":"@ + str_or_empty(a.skin_file);
    let wb = dec(x as nat) + ":skin:"@ + dec(b.skin_id as nat) + ":"@ + dec(or_zero(b.chroma_id)) + ":"@ + str_or_empty(b.skin_file);
    assert(wa =~= p + (dec(a.skin_id as nat) + ta));
    assert(wb =~= p + (dec(b.skin_id as nat) + tb));
    assert(ta =~= ":"@ + ua);
    assert(tb =~= ":"@ + ub);
    if wa == wb {
        lemma_cancel_prefix(p, dec(a.skin_id as nat) + ta, dec(b.skin_id as nat) + tb);
        lemma_dec_digits(a.skin_id as nat);
        lemma_dec_digits(b.skin_id as nat);
        assert(ta[0] == ':');
        assert(tb[0] == ':');
        if a.skin_id != b.skin_id {
            if dec(a.skin_id as nat) == dec(b.skin_id as nat) {
                lemma_dec_injective(a.skin_id as nat, b.skin_id as nat);
            }
            lemma_digits_then_separator(dec(a.skin_id as nat), dec(b.skin_id as nat), ta, tb);
        } else {
            lemma_cancel_prefix(dec(a.skin_id as nat), ta, tb);
            lemma_cancel_prefix(":"@, ua, ub);
            lemma_dec_digits(or_zero(a.chroma_id));
            lemma_dec_digits(or_zero(b.chroma_id));
            assert((":"@ + str_or_empty(a.skin_file))[0] == ':');
            assert((":"@ + str_or_empty(b.skin_file))[0] == ':');
            if dec(or_zero(a.chroma_id)) == dec(or_zero(b.chroma_id)) {
                lemma_dec_injective(or_zero(a.chroma_id), or_zero(b.chroma_id));
            }
            lemma_digits_then_separator(dec(or_zero(a.chroma_id)), dec(or_zero(b.chroma_id)),
                ":"@ + str_or_empty(a.skin_file), ":"@ + str_or_empty(b.skin_file));
        }
    }
}

/// The instant-assign signature sees a new skin pick: where the skin chosen
/// for a listed champion (its first entry) gets another skin or chroma, and no
/// file name in either configuration holds `|`, the signature differs.
pub proof fn lemma_instant_assign_signature_sees_skin_change(
    ids: Seq<u32>,
    cfg1: SavedConfig,
    cfg2: SavedConfig,
    misc: Seq<MiscItem>,
    c: u32,
    j: int,
    s2: SkinData,
)
    requires
        ids.contains(c),
        0 <= j < cfg1.skins@.len(),
        cfg1.skins@[j].champion_id == c,
        forall|k: int| 0 <= k < j ==> (#[trigger] cfg1.skins@[k]).champion_id != c,
        s2.champion_id == c,
        s2.skin_id != cfg1.skins@[j].skin_id || or_zero(s2.chroma_id) != or_zero(cfg1.skins@[j].chroma_id),
        cfg2.skins@ == cfg1.skins@.update(j, s2),
        cfg2.custom_skins@ == cfg1.custom_skins@,
        files_without_bar(cfg1),
        files_without_bar(cfg2),
    ensures
        instant_assign_signature(ids, cfg1, misc) != instant_assign_signature(ids, cfg2, misc),
{
    crate::sorting::lemma_sorted_distinct_same_values(ids, ids);
    let champs = sorted_distinct_of(ids);
    assert(champs.contains(c));
    let m = choose|m: int| 0 <= m < champs.len() && champs[m] == c;
    let f1 = |x: u32| selection_part(cfg1, x);
    let f2 = |x: u32| selection_part(cfg2, x);
    let q1 = champs.map_values(f1);
    let q2 = champs.map_values(f2);
    lemma_first_skin_at(cfg1.skins@, j, c);
    let t = cfg1.skins@.update(j, s2);
    assert forall|k: int| 0 <= k < j implies (#[trigger] t[k]).champion_id != c by {
        assert(t[k] == cfg1.skins@[k]);
    }
    lemma_first_skin_at(t, j, c);
    assert forall|k: int| 0 <= k < champs.len() && k != m implies #[trigger] q2[k] == q1[k] by {
        let x = champs[k];
        assert(x != c) by {
            assert(crate::sorting::strictly_increasing(champs));
            if x == c {
                if k < m { assert(champs[k] < champs[m]); } else { assert(champs[m] < champs[k]); }
            }
        }
        lemma_first_skin_update(cfg1.skins@, j, s2, x);
    }
    assert(q2 =~= q1.update(m, q2[m]));
    lemma_skin_part_tells_apart(c, cfg1.skins@[j], s2);
    assert(q1[m] != q2[m]);
    lemma_sorted_after_update(q1, m, q2[m]);
    let o1 = sorted_items(q1);
    let o2 = sorted_items(q2);
    assert forall|k: int| 0 <= k < o1.len() implies !(#[trigger] o1[k]).contains('|') by {
        lemma_sorted_members(q1, k);
        let a = choose|a: int| 0 <= a < q1.len() && q1[a] == o1[k];
        lemma_selection_part_no_bar(cfg1, champs[a]);
    }
    assert forall|k: int| 0 <= k < o2.len() implies !(#[trigger] o2[k]).contains('|') by {
        lemma_sorted_members(q2, k);
        let a = choose|a: int| 0 <= a < q2.len() && q2[a] == o2[k];
        lemma_selection_part_no_bar(cfg2, champs[a]);
    }
    reveal_strlit("|");
    assert("|"@ =~= seq!['|']);
    if join_seq(o1, "|"@) == join_seq(o2, "|"@) {
        lemma_join_injective(o1, o2, '|');
    }
    let head = "champs:"@ + join_seq(champs.map_values(|x: u32| dec(x as nat)), ","@) + "|selections:"@;
    let tail = "|misc:"@ + join_seq(sorted_items(misc.map_values(|mi: MiscItem| misc_key(mi))), ","@);
    assert(instant_assign_signature(ids, cfg1, misc) =~= head + join_seq(o1, "|"@) + tail);
    assert(instant_assign_signature(ids, cfg2, misc) =~= head + join_seq(o2, "|"@) + tail);
    if instant_assign_signature(ids, cfg1, misc) == instant_assign_signature(ids, cfg2, misc) {
        assert(head + join_seq(o1, "|"@) + tail =~= head + (join_seq(o1, "|"@) + tail));
        assert(head + join_seq(o2, "|"@) + tail =~= head + (join_seq(o2, "|"@) + tail));
        lemma_cancel_prefix(head, join_seq(o1, "|"@) + tail, join_seq(o2, "|"@) + tail);
        lemma_cancel_suffix(join_seq(o1, "|"@), join_seq(o2, "|"@), tail);
    }
}

/// Different friend and champion pairs never share a received-skin key: the key
/// (`{summoner}_{champion}`) gives back both the summoner id and the champion.
pub proof fn lemma_received_key_injective(a: Seq<char>, c1: u32, b: Seq<char>, c2: u32)
    requires
        received_key(a, c1) == received_key(b, c2),
    ensures
        a == b,
        c1 == c2,
{
    lemma_digits_no_char(c1 as nat, '_');
    lemma_digits_no_char(c2 as nat, '_');
    lemma_split_at_last(a, dec(c1 as nat), b, dec(c2 as nat), '_');
    lemma_dec_injective(c1 as nat, c2 as nat);
}

// ---------------------------------------------------------------------------
// When party-mode injection starts
// ---------------------------------------------------------------------------

/// `f` is one of `fs` with sharing on.
spec fn sharing_member(f: PairedFriend, fs: Seq<PairedFriend>) -> bool {
    exists|j: int| 0 <= j < fs.len() && f == fs[j] && fs[j].share_enabled
}

/// `f` is one of `fs` and in the party.
spec fn party_member(f: PairedFriend, fs: Seq<PairedFriend>, party: Seq<Seq<char>>) -> bool {
    exists|j: int| 0 <= j < fs.len() && f == fs[j] && party.contains(fs[j].summoner_id@)
}

proof fn lemma_sharing_friends_members(fs: Seq<PairedFriend>)
    ensures
        forall|k: int| 0 <= k < sharing_friends(fs).len() ==> sharing_member(#[trigger] sharing_friends(fs)[k], fs),
        forall|j: int| 0 <= j < fs.len() && (#[trigger] fs[j]).share_enabled ==> sharing_friends(fs).contains(fs[j]),
    decreases fs.len(),
{
    if fs.len() > 0 {
        let p = fs.drop_last();
        lemma_sharing_friends_members(p);
        let sp = sharing_friends(p);
        let s = sharing_friends(fs);
        assert forall|k: int| 0 <= k < s.len() implies sharing_member(#[trigger] s[k], fs) by {
            if fs.last().share_enabled && k == sp.len() {
                assert(s[k] == fs[fs.len() - 1]);
            } else {
                assert(s[k] == sp[k]);
                assert(sharing_member(sp[k], p));
                let j = choose|j: int| 0 <= j < p.len() && sp[k] == p[j] && p[j].share_enabled;
                assert(fs[j] == p[j]);
            }
        }
        assert forall|j: int| 0 <= j < fs.len() && (#[trigger] fs[j]).share_enabled implies s.contains(fs[j]) by {
            if j == fs.len() - 1 {
                assert(s[sp.len() as int] == fs[j]);
            } else {
                assert(p[j] == fs[j]);
                assert(sp.contains(p[j]));
                let k = choose|k: int| 0 <= k < sp.len() && sp[k] == p[j];
                if fs.last().share_enabled {
                    assert(s[k] == sp[k]);
                }
            }
        }
    }
}

proof fn lemma_friends_in_party_members(fs: Seq<PairedFriend>, party: Seq<Seq<char>>)
    ensures
        forall|k: int| 0 <= k < friends_in_party(fs, party).len()
            ==> party_member(#[trigger] friends_in_party(fs, party)[k], fs, party),
        forall|j: int| 0 <= j < fs.len() && party.contains((#[trigger] fs[j]).summoner_id@)
            ==> friends_in_party(fs, party).contains(fs[j]),
    decreases fs.len(),
{
    if fs.len() > 0 {
        let p = fs.drop_last();
        lemma_friends_in_party_members(p, party);
        let sp = friends_in_party(p, party);
        let s = friends_in_party(fs, party);
        let here = party.contains(fs.last().summoner_id@);
        assert forall|k: int| 0 <= k < s.len() implies party_member(#[trigger] s[k], fs, party) by {
            if here && k == sp.len() {
                assert(s[k] == fs[fs.len() - 1]);
            } else {
                assert(s[k] == sp[k]);
                assert(party_member(sp[k], p, party));
                let j = choose|j: int| 0 <= j < p.len() && sp[k] == p[j] && party.contains(p[j].summoner_id@);
                assert(fs[j] == p[j]);
            }
        }
        assert forall|j: int| 0 <= j < fs.len() && party.contains((#[trigger] fs[j]).summoner_id@) implies s.contains(fs[j]) by {
            if j == fs.len() - 1 {
                assert(s[sp.len() as int] == fs[j]);
            } else {
                assert(p[j] == fs[j]);
                assert(sp.contains(p[j]));
                let k = choose|k: int| 0 <= k < sp.len() && sp[k] == p[j];
                if here {
                    assert(s[k] == sp[k]);
                }
            }
        }
    }
}

/// Party-mode injection for a held champion does not wait for anyone outside
/// the party: once every paired friend with sharing on who is a party member
/// has a stored skin share (for any champion), injection starts, whatever the
/// friends outside the party have done.
pub proof fn lemma_inject_once_party_sharers_shared(
    champion_id: u32,
    fs: Seq<PairedFriend>,
    connected: bool,
    party: Seq<Seq<char>>,
    received: Seq<(Seq<char>, InMemoryReceivedSkin)>,
)
    requires
        champion_id != 0,
        forall|j: int| 0 <= j < fs.len() && (#[trigger] fs[j]).share_enabled && party.contains(fs[j].summoner_id@)
            ==> exists|i: int| 0 <= i < received.len() && (#[trigger] received[i]).1.from_summoner_id@ == fs[j].summoner_id@,
    ensures
        should_inject_verdict(champion_id, Some(fs), connected, party, received),
{
    let sharing = sharing_friends(fs);
    let here = friends_in_party(sharing, party);
    lemma_sharing_friends_members(fs);
    lemma_friends_in_party_members(sharing, party);
    assert forall|k: int| 0 <= k < here.len() implies crate::party::has_shared(received, #[trigger] here[k].summoner_id@) by {
        assert(party_member(here[k], sharing, party));
        let k2 = choose|k2: int| 0 <= k2 < sharing.len() && here[k] == sharing[k2]
            && party.contains(sharing[k2].summoner_id@);
        assert(sharing_member(sharing[k2], fs));
        let j = choose|j: int| 0 <= j < fs.len() && sharing[k2] == fs[j] && fs[j].share_enabled;
        assert(fs[j].share_enabled && party.contains(fs[j].summoner_id@));
        let i = choose|i: int| 0 <= i < received.len() && (#[trigger] received[i]).1.from_summoner_id@ == fs[j].summoner_id@;
        assert(received[i].1.from_summoner_id@ == here[k].summoner_id@);
    }
}

/// While connected, party-mode injection waits for a paired friend with sharing
/// on who is in the party and has no stored skin share yet.
pub proof fn lemma_wait_for_party_sharer(
    champion_id: u32,
    fs: Seq<PairedFriend>,
    party: Seq<Seq<char>>,
    received: Seq<(Seq<char>, InMemoryReceivedSkin)>,
    j: int,
)
    requires
        0 <= j < fs.len(),
        fs[j].share_enabled,
        party.contains(fs[j].summoner_id@),
        forall|i: int| 0 <= i < received.len() ==> (#[trigger] received[i]).1.from_summoner_id@ != fs[j].summoner_id@,
    ensures
        !should_inject_verdict(champion_id, Some(fs), true, party, received),
{
    let sharing = sharing_friends(fs);
    let here = friends_in_party(sharing, party);
    lemma_sharing_friends_members(fs);
    assert(sharing.contains(fs[j]));
    let k2 = choose|k2: int| 0 <= k2 < sharing.len() && sharing[k2] == fs[j];
    lemma_friends_in_party_members(sharing, party);
    assert(party.contains(sharing[k2].summoner_id@));
    assert(here.contains(sharing[k2]));
    let k = choose|k: int| 0 <= k < here.len() && here[k] == sharing[k2];
    assert(!crate::party::has_shared(received, here[k].summoner_id@));
}

// ---------------------------------------------------------------------------
// Friends' presence
// ---------------------------------------------------------------------------

/// A listed friend is online exactly when the chat API gives an availability
/// other than `offline` (`chat`, `away`, `dnd`, in game, ...), and offline when
/// it gives none; the friend carries that availability along.
pub proof fn lemma_friend_online_unless_offline(f: crate::friends::FriendInfo, j: Json)
    requires
        crate::friends::friend_describes(f, j),
    ensures
        f.is_online <==> (crate::json::get_str(j, "availability"@) matches Some(a) && a != "offline"@),
        f.availability is Some <==> crate::json::get_str(j, "availability"@) is Some,
        f.availability matches Some(a) ==> crate::json::get_str(j, "availability"@) == Some(a@),
{
}

// ---------------------------------------------------------------------------
// Brawl lobbies: one champion
// ---------------------------------------------------------------------------

proof fn lemma_collect_single(xs: Seq<Option<i64>>, c: i64)
    requires
        xs == seq![Some(c)],
        c > 0,
    ensures
        crate::champ_select::add_new_positives(Seq::<i64>::empty(), xs) == seq![c],
{
    let empty: Seq<i64> = Seq::empty();
    assert(xs[0] == Some(c));
    assert(!empty.contains(c));
    assert(crate::champ_select::push_new_positive(empty, Some(c)) =~= seq![c]);
    assert(xs.drop_first() =~= Seq::<Option<i64>>::empty());
    assert(crate::champ_select::add_new_positives(seq![c], xs.drop_first()) == seq![c]);
}

/// In Brawl (its queues, or a mode naming it) only the local member's first
/// slot counts: when that slot holds a selected champion `c`, the lobby's
/// champions are exactly `[c]`, whatever the other slots hold.
pub proof fn lemma_brawl_first_slot_only(
    j: Json,
    mode: Seq<char>,
    current: Option<(Seq<char>, i64)>,
    lm: Json,
    slots: Seq<Json>,
    c: i64,
)
    requires
        crate::lobby::is_brawl(j, mode),
        crate::json::jget(j, "localMember"@) == Some(lm),
        crate::json::get_array(lm, "playerSlots"@) == Some(slots),
        slots.len() > 0,
        crate::json::get_i64(slots[0], "championId"@) == Some(c),
        c > 0,
        crate::json::get_str(slots[0], "selectionStatus"@) == Some("SELECTED"@),
    ensures
        lobby_champions(j, mode, current, false) == seq![c],
{
    let f = lobby_flags(j, mode);
    let first = slots.take(1);
    assert(first =~= seq![slots[0]]);
    assert(crate::lobby::slots_to_check(slots.len(), true) == 1);
    let ids = crate::champ_select::member_ids(first, "championId"@);
    assert(ids =~= seq![Some(c)]);
    lemma_collect_single(ids, c);
    let locked = crate::lobby::locked_slot_champions(first, f);
    assert(crate::lobby::locked_slot_champion(slots[0], f) == Some(c));
    assert(locked =~= seq![Some(c)]);
    lemma_collect_single(locked, c);
    if f.matchmaking_auto {
        assert(matchmaking_override(j, f, current) == Some(seq![c]));
    } else {
        assert(matchmaking_override(j, f, current) is None);
        assert(locked_member_champions(j, f) == seq![c]);
    }
}

// ---------------------------------------------------------------------------
// Re-injection when the chosen skin changes
// ---------------------------------------------------------------------------

proof fn lemma_changed_none(m: Map<u32, SkinData>, t: Seq<SkinData>, c: u32)
    requires
        forall|i: int| 0 <= i < t.len() ==> (#[trigger] t[i]).champion_id != c,
    ensures
        crate::flow::changed_skins(m, t, Some(c)) == (m, Seq::<SkinData>::empty()),
    decreases t.len(),
{
    if t.len() > 0 {
        lemma_changed_none(m, t.drop_last(), c);
        assert(t.last() == t[t.len() - 1]);
    }
}

proof fn lemma_changed_prefix(m: Map<u32, SkinData>, skins: Seq<SkinData>, champ: Option<u32>, n: int)
    requires
        0 <= n <= skins.len(),
    ensures
        crate::flow::changed_skins(m, skins.take(n), champ).1.len() <= crate::flow::changed_skins(m, skins, champ).1.len(),
        forall|k: int| 0 <= k < crate::flow::changed_skins(m, skins.take(n), champ).1.len()
            ==> crate::flow::changed_skins(m, skins, champ).1[k] == #[trigger] crate::flow::changed_skins(m, skins.take(n), champ).1[k],
    decreases skins.len() - n,
{
    if n == skins.len() {
        assert(skins.take(n) =~= skins);
    } else {
        lemma_changed_prefix(m, skins, champ, n + 1);
        let t = skins.take(n + 1);
        assert(t.drop_last() =~= skins.take(n));
        let prev = crate::flow::changed_skins(m, skins.take(n), champ);
        let next = crate::flow::changed_skins(m, t, champ);
        assert(crate::flow::changed_skins(m, t.drop_last(), champ) == prev);
        assert(next.1.len() >= prev.1.len());
        assert forall|k: int| 0 <= k < prev.1.len() implies next.1[k] == #[trigger] prev.1[k] by {
            if next.1 != prev.1 {
                assert(next.1 == prev.1.push(t.last()));
            }
        }
        let all = crate::flow::changed_skins(m, skins, champ);
        assert forall|k: int| 0 <= k < prev.1.len() implies all.1[k] == #[trigger] prev.1[k] by {
            assert(next.1[k] == prev.1[k]);
        }
    }
}

/// When the chosen skin for the current champion differs from the one last
/// applied for it in its skin, its chroma (a new chroma alone counts) or its
/// file, or nothing was applied yet, a re-injection of that skin comes first
/// in the plan.
pub proof fn lemma_changed_skin_reinjected(m: Map<u32, SkinData>, skins: Seq<SkinData>, c: u32, j: int)
    requires
        0 <= j < skins.len(),
        skins[j].champion_id == c,
        forall|i: int| 0 <= i < j ==> (#[trigger] skins[i]).champion_id != c,
        m.contains_key(c) ==> m[c].skin_id != skins[j].skin_id || m[c].chroma_id != skins[j].chroma_id
            || crate::flow::opt_view(m[c].skin_file) != crate::flow::opt_view(skins[j].skin_file),
    ensures
        crate::flow::changed_skins(m, skins, Some(c)).1.len() > 0,
        crate::flow::changed_skins(m, skins, Some(c)).1[0] == skins[j],
{
    let pre = skins.take(j);
    assert forall|i: int| 0 <= i < pre.len() implies (#[trigger] pre[i]).champion_id != c by {
        assert(pre[i] == skins[i]);
    }
    lemma_changed_none(m, pre, c);
    let t = skins.take(j + 1);
    assert(t.drop_last() =~= pre);
    assert(t.last() == skins[j]);
    assert(crate::flow::changed_skins(m, t, Some(c)).1 =~= seq![skins[j]]);
    lemma_changed_prefix(m, skins, Some(c), j + 1);
    assert(crate::flow::changed_skins(m, t, Some(c)).1[0] == skins[j]);
}

proof fn lemma_unchanged_skins_keep(m: Map<u32, SkinData>, t: Seq<SkinData>, c: u32)
    requires
        m.contains_key(c),
        forall|i: int| 0 <= i < t.len() && (#[trigger] t[i]).champion_id == c ==> t[i].skin_id == m[c].skin_id
            && t[i].chroma_id == m[c].chroma_id && crate::flow::opt_view(t[i].skin_file) == crate::flow::opt_view(m[c].skin_file),
    ensures
        crate::flow::changed_skins(m, t, Some(c)) == (m, Seq::<SkinData>::empty()),
    decreases t.len(),
{
    if t.len() > 0 {
        let p = t.drop_last();
        assert forall|i: int| 0 <= i < p.len() && (#[trigger] p[i]).champion_id == c implies p[i].skin_id == m[c].skin_id
            && p[i].chroma_id == m[c].chroma_id && crate::flow::opt_view(p[i].skin_file) == crate::flow::opt_view(m[c].skin_file) by {
            assert(p[i] == t[i]);
        }
        lemma_unchanged_skins_keep(m, p, c);
        assert(t.last() == t[t.len() - 1]);
    }
}

/// When every chosen entry for the current champion matches the skin last
/// applied for it in skin, chroma and file, nothing is re-injected.
pub proof fn lemma_unchanged_skin_not_reinjected(m: Map<u32, SkinData>, skins: Seq<SkinData>, c: u32)
    requires
        m.contains_key(c),
        forall|i: int| 0 <= i < skins.len() && (#[trigger] skins[i]).champion_id == c ==> skins[i].skin_id == m[c].skin_id
            && skins[i].chroma_id == m[c].chroma_id && crate::flow::opt_view(skins[i].skin_file) == crate::flow::opt_view(m[c].skin_file),
    ensures
        crate::flow::changed_skins(m, skins, Some(c)).1.len() == 0,
{
    lemma_unchanged_skins_keep(m, skins, c);
}

// ---------------------------------------------------------------------------
// Cleanup on phase changes
// ---------------------------------------------------------------------------

proof fn lemma_phase_names_distinct()
    ensures
        "None"@ != "Lobby"@, "None"@ != "Matchmaking"@, "None"@ != "ChampSelect"@,
        "None"@ != "InProgress"@, "None"@ != "Reconnect"@,
        "Lobby"@ != "Matchmaking"@, "Lobby"@ != "ChampSelect"@, "Lobby"@ != "InProgress"@, "Lobby"@ != "Reconnect"@,
        "Matchmaking"@ != "ChampSelect"@, "Matchmaking"@ != "InProgress"@, "Matchmaking"@ != "Reconnect"@,
        "ChampSelect"@ != "InProgress"@, "ChampSelect"@ != "Reconnect"@, "InProgress"@ != "Reconnect"@,
{
    reveal_strlit("None");
    reveal_strlit("Lobby");
    reveal_strlit("Matchmaking");
    reveal_strlit("ChampSelect");
    reveal_strlit("InProgress");
    reveal_strlit("Reconnect");
    assert("None"@.len() == 4);
    assert("Lobby"@.len() == 5);
    assert("Matchmaking"@.len() == 11);
    assert("ChampSelect"@.len() == 11);
    assert("InProgress"@.len() == 10);
    assert("Reconnect"@.len() == 9);
    assert("Matchmaking"@[0] != "ChampSelect"@[0]);
}

/// Leaving champion select (a dodge), a game or a reconnect for the lobby, the
/// queue or no phase ends the injection, and so does leaving the queue for the
/// lobby.
pub proof fn lemma_cleanup_on_leaving(old_phase: Seq<char>, new_phase: Seq<char>)
    requires
        (old_phase == "ChampSelect"@ || old_phase == "InProgress"@ || old_phase == "Reconnect"@)
            && (new_phase == "Lobby"@ || new_phase == "Matchmaking"@ || new_phase == "None"@)
        || (old_phase == "Matchmaking"@ && new_phase == "Lobby"@),
    ensures
        crate::watcher::should_cleanup(old_phase, new_phase),
{
    lemma_phase_names_distinct();
}

/// Entering champion select, going on from champion select into the game or a
/// reconnect, moving between game and reconnect, and closing the client from
/// the lobby never end the injection.
pub proof fn lemma_no_cleanup_going_on(old_phase: Seq<char>, new_phase: Seq<char>)
    requires
        new_phase == "ChampSelect"@
        || (old_phase == "ChampSelect"@ && (new_phase == "InProgress"@ || new_phase == "Reconnect"@))
        || (old_phase == "InProgress"@ && new_phase == "Reconnect"@)
        || (old_phase == "Reconnect"@ && new_phase == "InProgress"@)
        || (old_phase == "Lobby"@ && new_phase == "None"@),
    ensures
        !crate::watcher::should_cleanup(old_phase, new_phase),
{
    lemma_phase_names_distinct();
}

proof fn lemma_collect_at_most_one(xs: Seq<Option<i64>>)
    requires
        xs.len() <= 1,
    ensures
        crate::champ_select::add_new_positives(Seq::<i64>::empty(), xs).len() <= 1,
{
    if xs.len() == 1 {
        let empty: Seq<i64> = Seq::empty();
        let one = crate::champ_select::push_new_positive(empty, xs[0]);
        assert(one.len() <= 1);
        assert(xs.drop_first() =~= Seq::<Option<i64>>::empty());
        assert(crate::champ_select::add_new_positives(one, xs.drop_first()) == one);
        assert(crate::champ_select::add_new_positives(empty, xs)
            == crate::champ_select::add_new_positives(one, xs.drop_first()));
    }
}

/// A Brawl lobby (its queues, or a mode naming it) never yields more than one
/// champion for the local player.
pub proof fn lemma_brawl_at_most_one(j: Json, mode: Seq<char>, current: Option<(Seq<char>, i64)>)
    requires
        crate::lobby::is_brawl(j, mode),
    ensures
        lobby_champions(j, mode, current, false).len() <= 1,
{
    let f = lobby_flags(j, mode);
    if let Some(lm) = crate::json::jget(j, "localMember"@) {
        if let Some(slots) = crate::json::get_array(lm, "playerSlots"@) {
            let first = slots.take(crate::lobby::slots_to_check(slots.len(), true) as int);
            assert(first.len() <= 1);
            lemma_collect_at_most_one(crate::champ_select::member_ids(first, "championId"@));
            lemma_collect_at_most_one(crate::lobby::locked_slot_champions(first, f));
        }
    }
    if let Some(r) = matchmaking_override(j, f, current) {
        assert(r.len() <= 1);
    } else {
        assert(locked_member_champions(j, f).len() <= 1);
    }
}

/// Party-mode injection never starts before the local player holds a
/// champion; once one is held it is not held back without a saved
/// configuration or without a connection to the client.
pub proof fn lemma_inject_gating(
    champion_id: u32,
    friends: Option<Seq<PairedFriend>>,
    connected: bool,
    party: Seq<Seq<char>>,
    received: Seq<(Seq<char>, InMemoryReceivedSkin)>,
)
    ensures
        champion_id == 0 ==> !should_inject_verdict(champion_id, friends, connected, party, received),
        champion_id != 0 && (friends is None || !connected)
            ==> should_inject_verdict(champion_id, friends, connected, party, received),
{
}

/// A re-injection plan only ever holds skins of the current champion, and
/// nothing without one.
pub proof fn lemma_plan_only_current_champion(m: Map<u32, SkinData>, skins: Seq<SkinData>, champ: Option<u32>)
    ensures
        forall|k: int| 0 <= k < crate::flow::changed_skins(m, skins, champ).1.len()
            ==> champ == Some((#[trigger] crate::flow::changed_skins(m, skins, champ).1[k]).champion_id),
    decreases skins.len(),
{
    if skins.len() > 0 {
        lemma_plan_only_current_champion(m, skins.drop_last(), champ);
        let prev = crate::flow::changed_skins(m, skins.drop_last(), champ);
        let cur = crate::flow::changed_skins(m, skins, champ);
        assert forall|k: int| 0 <= k < cur.1.len() implies champ == Some((#[trigger] cur.1[k]).champion_id) by {
            if k < prev.1.len() {
                if cur.1 != prev.1 {
                    assert(cur.1 == prev.1.push(skins.last()));
                }
                assert(cur.1[k] == prev.1[k]);
            }
        }
    }
}

} // verus!
