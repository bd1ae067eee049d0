//! The champion-select and instant-assign steps of the watcher: each step
//! takes the watcher state and what the caller observed, updates the state and
//! says what to do next.
use vstd::prelude::*;
use std::collections::HashMap;
use crate::text::str_eq;
use crate::config::{SavedConfig, SkinData};
use crate::party::InMemoryReceivedSkin;
use crate::watcher::WatcherState;
use crate::signature::{compute_party_injection_signature, party_signature, first_skin_for, first_skin_for_exec};

verus! {

broadcast use vstd::std_specs::hash::group_hash_axioms;

/// Records the champion the local player holds; says whether it differs from the
/// last one seen. A new champion reopens the once-per-phase injection flag.
pub fn note_selected_champion(state: &mut WatcherState, selected_champ_id: i64) -> (r: (u32, bool))
    ensures
        r.0 == selected_champ_id as u32,
        r.1 == (old(state).last_champion_id != Some(selected_champ_id as u32)),
        *final(state) == (WatcherState {
            last_champion_id: Some(selected_champ_id as u32),
            party_injection_done_this_phase: old(state).party_injection_done_this_phase && !r.1,
            ..*old(state)
        }),
{
    let current = selected_champ_id as u32;
    let changed = match state.last_champion_id {
        Some(last) => last != current,
        None => true,
    };
    if changed {
        state.party_injection_done_this_phase = false;
    }
    state.last_champion_id = Some(current);
    (current, changed)
}

/// What to do about sharing the local player's skin after a champion change.
#[derive(Debug, PartialEq)]
pub enum ShareDecision {
    /// No skin is chosen for the champion: the injection status goes back to idle.
    NoSkinConfigured,
    /// A share of this skin went out less than two seconds ago.
    Debounced,
    /// Send this skin to the paired friends.
    Share(SkinData),
}

/// Whether a share for the champion may go out at `now`: always after a reroll
/// (the last champion seen is another, non-zero one), else when none went out
/// for it or the last one is at least two seconds old.
pub open spec fn share_allowed(last_champion: Option<u32>, times: Map<u32, u64>, champion: u32, now: u64) -> bool {
    let prev = match last_champion { Some(c) => c, None => 0 };
    if prev != champion && prev != 0 {
        true
    } else if times.contains_key(champion) {
        (if now >= times[champion] { now - times[champion] } else { 0 }) >= 2000
    } else {
        true
    }
}

/// Decides the skin share after a champion change at time `now` (milliseconds)
/// and records the share time and the skin applied for the champion.
pub fn share_step(state: &mut WatcherState, config: &SavedConfig, champion: u32, now: u64) -> (r: ShareDecision)
    ensures
        match first_skin_for(config.skins@, champion) {
            None => r is NoSkinConfigured && *final(state) == *old(state),
            Some(skin) => {
                let allowed = share_allowed(old(state).last_champion_id, old(state).last_champion_share_time@, champion, now);
                &&& (if allowed { r == ShareDecision::Share(skin) } else { r is Debounced })
                &&& final(state).last_champion_share_time@ == if allowed {
                    old(state).last_champion_share_time@.insert(champion, now)
                } else {
                    old(state).last_champion_share_time@
                }
                &&& final(state).last_selected_skins@ == old(state).last_selected_skins@.insert(champion, skin)
                &&& *final(state) == (WatcherState {
                    last_champion_share_time: final(state).last_champion_share_time,
                    last_selected_skins: final(state).last_selected_skins,
                    ..*old(state)
                })
            },
        },
{
    let skin = match first_skin_for_exec(&config.skins, champion) {
        Some(s) => s.clone(),
        None => {
            return ShareDecision::NoSkinConfigured;
        },
    };
    assert(first_skin_for(config.skins@, champion) == Some(skin));
    let prev: u32 = match state.last_champion_id {
        Some(c) => c,
        None => 0,
    };
    let allowed = if prev != champion && prev != 0 {
        state.last_champion_share_time.insert(champion, now);
        true
    } else {
        match state.last_champion_share_time.get(&champion) {
            Some(t) => {
                if now.saturating_sub(*t) < 2000 {
                    false
                } else {
                    state.last_champion_share_time.insert(champion, now);
                    true
                }
            },
            None => {
                state.last_champion_share_time.insert(champion, now);
                true
            },
        }
    };
    state.last_selected_skins.insert(champion, skin.clone());
    if allowed {
        ShareDecision::Share(skin)
    } else {
        ShareDecision::Debounced
    }
}

/// Whether the party-mode inbox is due to be read at `now` (every one and a half
/// seconds); when due, `now` becomes the time of the last read.
pub fn party_inbox_check_due(last_check_ms: &mut u64, now: u64) -> (due: bool)
    ensures
        due == (now as int - *old(last_check_ms) as int >= 1500),
        *final(last_check_ms) == if due { now } else { *old(last_check_ms) },
{
    if now >= *last_check_ms && now - *last_check_ms >= 1500 {
        *last_check_ms = now;
        true
    } else {
        false
    }
}

/// Whether the party-mode injection check is due at `now` (once a second, never
/// under manual injection); when due, its time is recorded.
pub fn party_check_due(state: &mut WatcherState, now: u64, manual_injection_active: bool) -> (due: bool)
    ensures
        due == (now as int - old(state).last_party_injection_check_ms as int >= 1000 && !manual_injection_active),
        *final(state) == if due {
            WatcherState { last_party_injection_check_ms: now, ..*old(state) }
        } else {
            *old(state)
        },
{
    if now.saturating_sub(state.last_party_injection_check_ms) >= 1000 && !manual_injection_active {
        state.last_party_injection_check_ms = now;
        true
    } else {
        false
    }
}

/// Whether a party-mode injection may be considered: the friends are ready, this
/// phase's flag is clear and five seconds passed since the last one.
pub open spec fn party_injection_eligible(s: WatcherState, should_inject: bool, now: u64) -> bool {
    should_inject && !s.party_injection_done_this_phase && now as int - s.last_party_injection_time_ms as int >= 5000
}

/// Decides whether party-mode injection starts now for the champion: the friends
/// are ready, the flag of this phase is clear, five seconds passed since the last
/// one, and the signature of friends' skins differs from the last injected one.
/// When it starts, the phase is marked as injected and the signature and time are recorded.
pub fn party_injection_decision(state: &mut WatcherState, champion: u32, should_inject: bool, now: u64) -> (go: bool)
    ensures
        ({
            let eligible = party_injection_eligible(*old(state), should_inject, now);
            let sig = party_signature(champion, old(state).received_skins@);
            let fresh = match old(state).last_party_injection_signature {
                Some(s) => s@ != sig,
                None => true,
            };
            &&& go == (eligible && fresh)
            &&& eligible ==> final(state).last_shared_champion_id == champion as u64
            &&& go ==> (final(state).last_party_injection_signature matches Some(s) && s@ == sig)
            &&& go ==> *final(state) == (WatcherState {
                last_shared_champion_id: champion as u64,
                party_injection_done_this_phase: true,
                last_party_injection_signature: final(state).last_party_injection_signature,
                last_party_injection_time_ms: now,
                ..*old(state)
            })
            &&& !eligible ==> *final(state) == *old(state)
            &&& eligible && !go ==> *final(state) == (WatcherState { last_shared_champion_id: champion as u64, ..*old(state) })
        }),
{
    let eligible = should_inject && !state.party_injection_done_this_phase
        && now.saturating_sub(state.last_party_injection_time_ms) >= 5000;
    if !eligible {
        return false;
    }
    let sig = compute_party_injection_signature(state, champion);
    let fresh = match &state.last_party_injection_signature {
        Some(s) => !str_eq(s.as_str(), sig.as_str()),
        None => true,
    };
    if fresh {
        state.party_injection_done_this_phase = true;
        state.last_party_injection_signature = Some(sig);
        state.last_party_injection_time_ms = now;
        true
    } else {
        false
    }
}

// ---------------------------------------------------------------------------
// Re-injection when the chosen skin changes
// ---------------------------------------------------------------------------

/// A skin handed to the injector.
#[derive(Debug, PartialEq)]
pub struct Skin {
    pub champion_id: u32,
    pub skin_id: u32,
    pub chroma_id: Option<u32>,
    pub skin_file_path: Option<String>,
}

/// The characters of an optional string.
pub open spec fn opt_view(o: Option<String>) -> Option<Seq<char>> {
    match o {
        Some(s) => Some(s@),
        None => None,
    }
}

/// Whether a chosen skin differs from the one last applied for its champion.
pub open spec fn skin_differs(m: Map<u32, SkinData>, s: SkinData) -> bool {
    !m.contains_key(s.champion_id) || m[s.champion_id].skin_id != s.skin_id
        || m[s.champion_id].chroma_id != s.chroma_id
        || opt_view(m[s.champion_id].skin_file) != opt_view(s.skin_file)
}

/// Walking the chosen skins in order: those of the current champion that differ
/// from the last applied one, and the applied skins afterwards.
pub open spec fn changed_skins(m: Map<u32, SkinData>, skins: Seq<SkinData>, champ: Option<u32>) -> (Map<u32, SkinData>, Seq<SkinData>)
    decreases skins.len(),
{
    if skins.len() == 0 {
        (m, seq![])
    } else {
        let prev = changed_skins(m, skins.drop_last(), champ);
        let s = skins.last();
        if champ == Some(s.champion_id) && skin_differs(prev.0, s) {
            (prev.0.insert(s.champion_id, s), prev.1.push(s))
        } else {
            prev
        }
    }
}

/// The injector's form of a chosen skin.
pub open spec fn skin_from_data(s: SkinData) -> Skin {
    Skin { champion_id: s.champion_id, skin_id: s.skin_id, chroma_id: s.chroma_id, skin_file_path: s.skin_file }
}

/// The injector's form of a friend's skin.
pub open spec fn skin_from_received(r: InMemoryReceivedSkin) -> Skin {
    Skin { champion_id: r.champion_id, skin_id: r.skin_id, chroma_id: r.chroma_id, skin_file_path: r.fantome_path }
}

/// Friends' skins for the champion, in the store's order, in the injector's form.
pub open spec fn received_skins_for(r: Seq<(Seq<char>, InMemoryReceivedSkin)>, champ: u32) -> Seq<Skin>
    decreases r.len(),
{
    if r.len() == 0 {
        seq![]
    } else if r.last().1.champion_id == champ {
        received_skins_for(r.drop_last(), champ).push(skin_from_received(r.last().1))
    } else {
        received_skins_for(r.drop_last(), champ)
    }
}

/// A re-injection the caller carries out (after dropping skins whose files are missing).
#[derive(Debug, PartialEq)]
pub struct SkinChange {
    pub skin: SkinData,
    pub skins_to_inject: Vec<Skin>,
}

fn opt_str_eq(a: &Option<String>, b: &Option<String>) -> (r: bool)
    ensures
        r == (opt_view(*a) == opt_view(*b)),
{
    match (a, b) {
        (Some(x), Some(y)) => str_eq(x.as_str(), y.as_str()),
        (None, None) => true,
        _ => false,
    }
}

fn clone_opt_string(o: &Option<String>) -> (r: Option<String>)
    ensures
        r == *o,
{
    match o {
        Some(s) => Some(s.clone()),
        None => None,
    }
}

fn received_skins_for_exec(state: &WatcherState, champ: u32) -> (r: Vec<Skin>)
    ensures
        r@ == received_skins_for(state.received_skins@, champ),
{
    let n = state.received_skins.len();
    let mut out: Vec<Skin> = Vec::new();
    let mut i: usize = 0;
    while i < n
        invariant
            0 <= i <= n,
            n == state.received_skins@.len(),
            out@ == received_skins_for(state.received_skins@.take(i as int), champ),
        decreases n - i,
    {
        let r = state.received_skins.get(i);
        proof {
            assert(state.received_skins@.take(i as int + 1).drop_last() =~= state.received_skins@.take(i as int));
            assert(state.received_skins@.take(i as int + 1).last() == state.received_skins@[i as int]);
        }
        if r.champion_id == champ {
            out.push(Skin {
                champion_id: r.champion_id,
                skin_id: r.skin_id,
                chroma_id: r.chroma_id,
                skin_file_path: clone_opt_string(&r.fantome_path),
            });
        }
        i = i + 1;
    }
    proof {
        assert(state.received_skins@.take(i as int) =~= state.received_skins@);
    }
    out
}

/// Finds the chosen skins of the current champion that changed since last
/// applied, records them as applied, and returns for each the skins to inject:
/// the chosen skin followed by the friends' skins for the champion.
pub fn skin_change_plan(state: &mut WatcherState, config: &SavedConfig) -> (plan: Vec<SkinChange>)
    ensures
        ({
            let c = changed_skins(old(state).last_selected_skins@, config.skins@, old(state).last_champion_id);
            &&& final(state).last_selected_skins@ == c.0
            &&& plan@.len() == c.1.len()
            &&& forall|k: int| 0 <= k < plan@.len() ==> {
                &&& (#[trigger] plan@[k]).skin == c.1[k]
                &&& plan@[k].skins_to_inject@ == seq![skin_from_data(c.1[k])]
                    + received_skins_for(old(state).received_skins@, c.1[k].champion_id)
            }
            &&& *final(state) == (WatcherState { last_selected_skins: final(state).last_selected_skins, ..*old(state) })
        }),
{
    let ghost m0 = state.last_selected_skins@;
    let champ = state.last_champion_id;
    let mut plan: Vec<SkinChange> = Vec::new();
    let ghost mut changed: Seq<SkinData> = seq![];
    let mut i: usize = 0;
    while i < config.skins.len()
        invariant
            0 <= i <= config.skins.len(),
            champ == old(state).last_champion_id,
            m0 == old(state).last_selected_skins@,
            (state.last_selected_skins@, changed) == changed_skins(m0, config.skins@.take(i as int), champ),
            plan@.len() == changed.len(),
            forall|k: int| 0 <= k < plan@.len() ==> {
                &&& (#[trigger] plan@[k]).skin == changed[k]
                &&& plan@[k].skins_to_inject@ == seq![skin_from_data(changed[k])]
                    + received_skins_for(state.received_skins@, changed[k].champion_id)
            },
            *state == (WatcherState { last_selected_skins: state.last_selected_skins, ..*old(state) }),
        decreases config.skins.len() - i,
    {
        let skin = &config.skins[i];
        proof {
            assert(config.skins@.take(i as int + 1).drop_last() =~= config.skins@.take(i as int));
            assert(config.skins@.take(i as int + 1).last() == config.skins@[i as int]);
        }
        if champ == Some(skin.champion_id) {
            let cid = skin.champion_id;
            let differs = match state.last_selected_skins.get(&cid) {
                Some(old_skin) => old_skin.skin_id != skin.skin_id || old_skin.chroma_id != skin.chroma_id
                    || !opt_str_eq(&old_skin.skin_file, &skin.skin_file),
                None => true,
            };
            if differs {
                let mut to_inject: Vec<Skin> = Vec::new();
                to_inject.push(Skin {
                    champion_id: skin.champion_id,
                    skin_id: skin.skin_id,
                    chroma_id: skin.chroma_id,
                    skin_file_path: clone_opt_string(&skin.skin_file),
                });
                let mut others = received_skins_for_exec(state, cid);
                to_inject.append(&mut others);
                assert(to_inject@ =~= seq![skin_from_data(*skin)] + received_skins_for(state.received_skins@, cid));
                state.last_selected_skins.insert(cid, skin.clone());
                plan.push(SkinChange { skin: skin.clone(), skins_to_inject: to_inject });
                proof {
                    changed = changed.push(*skin);
                }
            }
        }
        i = i + 1;
    }
    proof {
        assert(config.skins@.take(i as int) =~= config.skins@);
    }
    plan
}

// ---------------------------------------------------------------------------
// Instant-assign injection when matchmaking starts
// ---------------------------------------------------------------------------

/// Whether a phase transition starts instant-assign injection: the queue begins
/// from the lobby (or, when the watcher just started, from no phase), outside
/// manual injection.
pub open spec fn instant_assign_starts(old_phase: Seq<char>, new_phase: Seq<char>, manual: bool, from_start_allowed: bool) -> bool {
    new_phase == "Matchmaking"@ && !manual && (old_phase == "Lobby"@ || (from_start_allowed && old_phase == "None"@))
}

/// Decides whether a phase transition starts instant-assign injection.
pub fn instant_assign_on_transition(old_phase: &str, new_phase: &str, manual_injection_active: bool, from_start_allowed: bool) -> (r: bool)
    ensures
        r == instant_assign_starts(old_phase@, new_phase@, manual_injection_active, from_start_allowed),
{
    str_eq(new_phase, "Matchmaking") && !manual_injection_active
        && (str_eq(old_phase, "Lobby") || (from_start_allowed && str_eq(old_phase, "None")))
}

/// Champion ids as the injector takes them (the low 32 bits).
pub fn champions_as_u32(ids: &Vec<i64>) -> (r: Vec<u32>)
    ensures
        r@ == ids@.map_values(|c: i64| c as u32),
{
    let mut out: Vec<u32> = Vec::new();
    let mut i: usize = 0;
    while i < ids.len()
        invariant
            0 <= i <= ids.len(),
            out@ == ids@.take(i as int).map_values(|c: i64| c as u32),
        decreases ids.len() - i,
    {
        out.push(ids[i] as u32);
        proof {
            assert(ids@.take(i as int + 1) =~= ids@.take(i as int).push(ids@[i as int]));
            assert(out@ =~= ids@.take(i as int + 1).map_values(|c: i64| c as u32));
        }
        i = i + 1;
    }
    proof {
        assert(ids@.take(i as int) =~= ids@);
    }
    out
}

/// The signature used when no configuration could be read:
/// `"champs_only:{sorted champions}|misc_count:{n}"`.
pub open spec fn champs_only_signature_of(champs: Seq<u32>, misc_count: nat) -> Seq<char> {
    "champs_only:"@ + crate::text::join_seq(crate::sorting::sorted_u32_of(champs).map_values(|c: u32| crate::text::dec(c as nat)), ","@)
        + "|misc_count:"@ + crate::text::dec(misc_count)
}

/// Builds the signature used when no configuration could be read.
pub fn champs_only_signature(champs: &Vec<u32>, misc_count: usize) -> (sig: String)
    ensures
        sig@ == champs_only_signature_of(champs@, misc_count as nat),
{
    let sorted = crate::sorting::sort_u32(champs);
    let mut strs: Vec<String> = Vec::new();
    let mut i: usize = 0;
    while i < sorted.len()
        invariant
            0 <= i <= sorted.len(),
            crate::text::views(strs@) == sorted@.take(i as int).map_values(|c: u32| crate::text::dec(c as nat)),
        decreases sorted.len() - i,
    {
        let ghost old_strs = strs@;
        strs.push(crate::text::u64_to_string(sorted[i] as u64));
        proof {
            assert(sorted@.take(i as int + 1) =~= sorted@.take(i as int).push(sorted@[i as int]));
            assert(crate::text::views(strs@) =~= crate::text::views(old_strs).push(crate::text::dec(sorted@[i as int] as nat)));
            assert(crate::text::views(strs@) =~= sorted@.take(i as int + 1).map_values(|c: u32| crate::text::dec(c as nat)));
        }
        i = i + 1;
    }
    proof {
        assert(sorted@.take(i as int) =~= sorted@);
    }
    let mut sig = String::new();
    crate::text::push_str(&mut sig, "champs_only:");
    let joined = crate::text::join(&strs, ",");
    crate::text::push_str(&mut sig, joined.as_str());
    crate::text::push_str(&mut sig, "|misc_count:");
    crate::text::write_dec(&mut sig, misc_count as u64);
    sig
}

/// Records the champions of an instant-assign queue and decides whether to
/// inject: not when this phase's injection already ran with the same signature;
/// otherwise the phase is marked as injected and the signature is recorded.
pub fn instant_assign_decision(state: &mut WatcherState, champs: Vec<u32>, signature: String) -> (go: bool)
    ensures
        go == !(old(state).party_injection_done_this_phase
            && (old(state).last_party_injection_signature matches Some(s) && s@ == signature@)),
        final(state).last_instant_assign_champions == champs,
        go ==> final(state).party_injection_done_this_phase,
        go ==> final(state).last_party_injection_signature == Some(signature),
        *final(state) == (WatcherState {
            last_instant_assign_champions: champs,
            party_injection_done_this_phase: final(state).party_injection_done_this_phase,
            last_party_injection_signature: final(state).last_party_injection_signature,
            ..*old(state)
        }),
        !go ==> final(state).party_injection_done_this_phase == old(state).party_injection_done_this_phase
            && final(state).last_party_injection_signature == old(state).last_party_injection_signature,
{
    state.last_instant_assign_champions = champs;
    let same = match &state.last_party_injection_signature {
        Some(s) => str_eq(s.as_str(), signature.as_str()),
        None => false,
    };
    if state.party_injection_done_this_phase && same {
        return false;
    }
    state.party_injection_done_this_phase = true;
    state.last_party_injection_signature = Some(signature);
    true
}

/// During matchmaking, decides whether a changed choice of skins or items calls
/// for re-injection: when the signature differs from the last one, which it replaces.
pub fn matchmaking_reinject_decision(state: &mut WatcherState, new_signature: String) -> (go: bool)
    ensures
        go == !(old(state).last_party_injection_signature matches Some(s) && s@ == new_signature@),
        *final(state) == if go {
            WatcherState { last_party_injection_signature: Some(new_signature), ..*old(state) }
        } else {
            *old(state)
        },
{
    let same = match &state.last_party_injection_signature {
        Some(s) => str_eq(s.as_str(), new_signature.as_str()),
        None => false,
    };
    if same {
        false
    } else {
        state.last_party_injection_signature = Some(new_signature);
        true
    }
}

} // verus!
