//! The client watcher's state and the decisions it takes on each event:
//! phase transitions, champion-select updates, party-mode injection gating
//! and instant-assign injection.
use vstd::prelude::*;
use std::collections::HashMap;
use crate::text::{str_eq, push_str, write_dec, dec};
use crate::json::{Json, jget, as_str_of, as_array_of};
use crate::config::SkinData;
use crate::party::{ReceivedSkins, clear_received_skins};

verus! {

broadcast use vstd::std_specs::hash::group_hash_axioms;

/// The current time in milliseconds since the UNIX epoch, zero if the clock is before it.
#[verifier::external_body]
pub fn current_time_ms() -> u64 {
    std::time::SystemTime::now()
        .duration_since(std::time::UNIX_EPOCH)
        .unwrap_or_default()
        .as_millis() as u64
}

/// Everything the watcher remembers between events.
pub struct WatcherState {
    /// 0 before any phase was seen, 1 in champion select, 2 in any other phase.
    pub phase_state: u8,
    /// Signature of the last party-mode injection, to avoid repeating it.
    pub last_party_injection_signature: Option<String>,
    /// Champions of the last instant-assign injection.
    pub last_instant_assign_champions: Vec<u32>,
    /// At most one party-mode injection per champion-select phase.
    pub party_injection_done_this_phase: bool,
    /// When a skin share was last sent for each champion (milliseconds).
    pub last_champion_share_time: HashMap<u32, u64>,
    /// When the current champion select started (milliseconds; 0 = none yet).
    pub champ_select_start_time_ms: u64,
    /// Number of champion selects entered.
    pub champ_select_session_counter: u64,
    /// Whether a watcher runs.
    pub lcu_watcher_active: bool,
    /// Id of the watcher that is current.
    pub lcu_watcher_instance_id: u64,
    /// The champion the last party signature was computed for (0 = none).
    pub last_shared_champion_id: u64,
    /// When the last re-injection happened (milliseconds; 0 = never).
    pub last_reinjection_time_ms: u64,
    /// Skins friends shared in this champion select.
    pub received_skins: ReceivedSkins,
    /// The last client phase seen.
    pub last_phase: String,
    pub was_in_game: bool,
    pub was_reconnecting: bool,
    /// The champion last seen selected in champion select.
    pub last_champion_id: Option<u32>,
    /// The skin last applied per champion.
    pub last_selected_skins: HashMap<u32, SkinData>,
    /// When the party-mode injection check last ran (milliseconds).
    pub last_party_injection_check_ms: u64,
    /// When the last party-mode injection started (milliseconds).
    pub last_party_injection_time_ms: u64,
}

impl WatcherState {
    /// The state when the application starts at time `now` (milliseconds): no
    /// phase seen, nothing shared, the party-injection pause already elapsed.
    pub fn new(now: u64) -> (r: Self)
        ensures
            r.phase_state == 0,
            r.last_party_injection_signature is None,
            r.last_instant_assign_champions@.len() == 0,
            !r.party_injection_done_this_phase,
            r.last_champion_share_time@ == Map::<u32, u64>::empty(),
            r.champ_select_start_time_ms == 0,
            r.champ_select_session_counter == 0,
            !r.lcu_watcher_active,
            r.lcu_watcher_instance_id == 0,
            r.last_shared_champion_id == 0,
            r.last_reinjection_time_ms == 0,
            r.received_skins@.len() == 0,
            r.last_phase@ == "None"@,
            !r.was_in_game,
            !r.was_reconnecting,
            r.last_champion_id is None,
            r.last_selected_skins@ == Map::<u32, SkinData>::empty(),
            r.last_party_injection_check_ms == now,
            r.last_party_injection_time_ms == if now >= 60000 { (now - 60000) as u64 } else { 0 },
    {
        WatcherState {
            phase_state: 0,
            last_party_injection_signature: None,
            last_instant_assign_champions: Vec::new(),
            party_injection_done_this_phase: false,
            last_champion_share_time: HashMap::new(),
            champ_select_start_time_ms: 0,
            champ_select_session_counter: 0,
            lcu_watcher_active: false,
            lcu_watcher_instance_id: 0,
            last_shared_champion_id: 0,
            last_reinjection_time_ms: 0,
            received_skins: ReceivedSkins::new(),
            last_phase: String::from_str("None"),
            was_in_game: false,
            was_reconnecting: false,
            last_champion_id: None,
            last_selected_skins: HashMap::new(),
            last_party_injection_check_ms: now,
            last_party_injection_time_ms: now.saturating_sub(60000),
        }
    }
}

/// Whether the client is in champion select.
pub fn is_in_champ_select(state: &WatcherState) -> (r: bool)
    ensures
        r == (state.phase_state == 1),
{
    state.phase_state == 1
}

/// The verdict on a message timestamp, given when the session started and the time now.
pub open spec fn timestamp_verdict(session_start: u64, ts: u64, now: u64) -> (bool, Seq<char>) {
    if session_start == 0 {
        (true, "no session tracked yet"@)
    } else if ts < session_start {
        (false, "message predates current session"@)
    } else if ts > now + 10000 {
        (false, "message timestamp is in the future"@)
    } else {
        (true, "timestamp valid"@)
    }
}

/// Judges a message timestamp against the session start and the time `now`:
/// messages from before the session, or more than ten seconds ahead of now, are stale.
pub fn message_timestamp_verdict(session_start: u64, message_timestamp_ms: u64, now: u64) -> (r: (bool, &'static str))
    ensures
        (r.0, r.1@) == timestamp_verdict(session_start, message_timestamp_ms, now),
{
    if session_start == 0 {
        return (true, "no session tracked yet");
    }
    if message_timestamp_ms < session_start {
        return (false, "message predates current session");
    }
    if message_timestamp_ms as u128 > now as u128 + 10000 {
        return (false, "message timestamp is in the future");
    }
    (true, "timestamp valid")
}

/// Whether a message with this timestamp belongs to the current champion select,
/// with the reason; the clock is read only when the session start alone does not decide.
pub fn is_message_timestamp_valid(state: &WatcherState, message_timestamp_ms: u64) -> (r: (bool, &'static str))
    ensures
        exists|now: u64| (r.0, r.1@) == timestamp_verdict(state.champ_select_start_time_ms, message_timestamp_ms, now),
        state.champ_select_start_time_ms == 0 ==> r.0,
        state.champ_select_start_time_ms != 0 && message_timestamp_ms < state.champ_select_start_time_ms ==> !r.0,
{
    let start = state.champ_select_start_time_ms;
    if start == 0 || message_timestamp_ms < start {
        let r = message_timestamp_verdict(start, message_timestamp_ms, 0);
        return r;
    }
    let now = current_time_ms();
    message_timestamp_verdict(start, message_timestamp_ms, now)
}

/// Whether a re-injection may happen at `now`, given the last one and the cooldown.
pub open spec fn reinjection_allowed(last_reinjection: u64, now: u64, cooldown_ms: u64) -> bool {
    last_reinjection == 0 || (if now >= last_reinjection { now - last_reinjection } else { 0 }) >= cooldown_ms
}

/// Whether a re-injection may happen at `now`.
pub fn reinjection_allowed_at(last_reinjection: u64, now: u64, cooldown_ms: u64) -> (r: bool)
    ensures
        r == reinjection_allowed(last_reinjection, now, cooldown_ms),
{
    if last_reinjection == 0 {
        return true;
    }
    now.saturating_sub(last_reinjection) >= cooldown_ms
}

/// Whether enough time passed since the last re-injection (read from the clock).
pub fn can_reinjection_happen(state: &WatcherState, cooldown_ms: u64) -> (r: bool)
    ensures
        exists|now: u64| r == reinjection_allowed(state.last_reinjection_time_ms, now, cooldown_ms),
        state.last_reinjection_time_ms == 0 ==> r,
{
    let now = current_time_ms();
    reinjection_allowed_at(state.last_reinjection_time_ms, now, cooldown_ms)
}

/// Records that a re-injection happens now.
pub fn mark_reinjection_time(state: &mut WatcherState)
    ensures
        *final(state) == (WatcherState { last_reinjection_time_ms: final(state).last_reinjection_time_ms, ..*old(state) }),
{
    let now = current_time_ms();
    record_reinjection_time(state, now);
}

/// Records that a re-injection happens at `now`.
pub fn record_reinjection_time(state: &mut WatcherState, now: u64)
    ensures
        *final(state) == (WatcherState { last_reinjection_time_ms: now, ..*old(state) }),
{
    state.last_reinjection_time_ms = now;
}

/// Makes a new watcher instance current; its id mixes the time and the process id.
pub fn generate_watcher_instance_id(state: &mut WatcherState, process_id: u32) -> (id: u64)
    ensures
        final(state).lcu_watcher_instance_id == id,
        *final(state) == (WatcherState { lcu_watcher_instance_id: id, ..*old(state) }),
{
    let now = current_time_ms();
    assign_watcher_instance_id(state, now, process_id)
}

/// Makes the watcher started at `now` by process `process_id` current: its id
/// is the time with the process id mixed in by exclusive or.
pub fn assign_watcher_instance_id(state: &mut WatcherState, now: u64, process_id: u32) -> (id: u64)
    ensures
        id == now ^ (process_id as u64),
        *final(state) == (WatcherState { lcu_watcher_instance_id: id, ..*old(state) }),
{
    let id = now ^ (process_id as u64);
    state.lcu_watcher_instance_id = id;
    id
}

/// Whether the watcher with this id is still the current one.
pub fn is_current_watcher_instance(state: &WatcherState, my_id: u64) -> (r: bool)
    ensures
        r == (state.lcu_watcher_instance_id == my_id),
{
    state.lcu_watcher_instance_id == my_id
}

/// Marks a watcher as running; says whether one already was.
pub fn activate_watcher(state: &mut WatcherState) -> (was_active: bool)
    ensures
        was_active == old(state).lcu_watcher_active,
        *final(state) == (WatcherState { lcu_watcher_active: true, ..*old(state) }),
{
    let was = state.lcu_watcher_active;
    state.lcu_watcher_active = true;
    was
}

/// A watcher exits: it is no longer running if it was the current one.
pub fn watcher_exited(state: &mut WatcherState, my_id: u64)
    ensures
        *final(state) == if old(state).lcu_watcher_instance_id == my_id {
            WatcherState { lcu_watcher_active: false, ..*old(state) }
        } else {
            *old(state)
        },
{
    if is_current_watcher_instance(state, my_id) {
        state.lcu_watcher_active = false;
    }
}

/// Starts a new champion-select session at the current time: the session count
/// grows by one and champion and re-injection tracking restart.
pub fn start_new_champ_select_session(state: &mut WatcherState)
    ensures
        final(state).champ_select_session_counter == old(state).champ_select_session_counter.wrapping_add(1),
        *final(state) == (WatcherState {
            champ_select_start_time_ms: final(state).champ_select_start_time_ms,
            champ_select_session_counter: old(state).champ_select_session_counter.wrapping_add(1),
            last_shared_champion_id: 0,
            last_reinjection_time_ms: 0,
            ..*old(state)
        }),
{
    let now = current_time_ms();
    start_champ_select_session_at(state, now);
}

/// Starts a new champion-select session at `now`: the start time is `now`, the
/// session counter moves on, and the shared-champion and re-injection tracking restart.
pub fn start_champ_select_session_at(state: &mut WatcherState, now: u64)
    ensures
        *final(state) == (WatcherState {
            champ_select_start_time_ms: now,
            champ_select_session_counter: old(state).champ_select_session_counter.wrapping_add(1),
            last_shared_champion_id: 0,
            last_reinjection_time_ms: 0,
            ..*old(state)
        }),
{
    state.champ_select_start_time_ms = now;
    state.champ_select_session_counter = state.champ_select_session_counter.wrapping_add(1);
    state.last_shared_champion_id = 0;
    state.last_reinjection_time_ms = 0;
}

/// Whether the champion differs from the one the last signature was computed for.
pub fn did_champion_change(state: &WatcherState, new_champion_id: u32) -> (r: bool)
    ensures
        r == (state.last_shared_champion_id as u32 != 0 && state.last_shared_champion_id as u32 != new_champion_id),
{
    let last = state.last_shared_champion_id as u32;
    last != 0 && last != new_champion_id
}

/// Forgets the champion the last signature was computed for.
pub fn reset_champion_tracking(state: &mut WatcherState)
    ensures
        *final(state) == (WatcherState { last_shared_champion_id: 0, ..*old(state) }),
{
    state.last_shared_champion_id = 0;
}

// ---------------------------------------------------------------------------
// Phase transitions
// ---------------------------------------------------------------------------

/// Whether a phase transition ends the current injection (its files are removed):
/// leaving a game, a reconnect or champion select for no phase, the lobby or the
/// queue; leaving the queue for the lobby; and leaving any phase but the lobby for
/// no phase.
pub open spec fn should_cleanup(old_phase: Seq<char>, new_phase: Seq<char>) -> bool {
    if new_phase == "None"@ {
        old_phase != "None"@ && old_phase != "Lobby"@
    } else if new_phase == "Lobby"@ {
        old_phase == "InProgress"@ || old_phase == "Matchmaking"@ || old_phase == "Reconnect"@
            || old_phase == "ChampSelect"@
    } else if new_phase == "Matchmaking"@ {
        old_phase == "InProgress"@ || old_phase == "Reconnect"@ || old_phase == "ChampSelect"@
    } else {
        false
    }
}

/// What a phase event asks of the caller.
#[derive(Debug, PartialEq)]
pub struct PhaseChange {
    /// The phase differs from the last one seen.
    pub changed: bool,
    /// The injected files must be cleaned up and the injection status reset to idle.
    pub cleanup: bool,
    /// Champion select begins: folders are prepared and shares sent so far are forgotten.
    pub entered_champ_select: bool,
    /// Manual injection is active and this transition triggers it.
    pub trigger_manual_injection: bool,
}

fn cleanup_needed(old_phase: &str, new_phase: &str) -> (r: bool)
    ensures
        r == should_cleanup(old_phase@, new_phase@),
{
    if str_eq(new_phase, "None") {
        !str_eq(old_phase, "None") && !str_eq(old_phase, "Lobby")
    } else if str_eq(new_phase, "Lobby") {
        str_eq(old_phase, "InProgress") || str_eq(old_phase, "Matchmaking") || str_eq(old_phase, "Reconnect")
            || str_eq(old_phase, "ChampSelect")
    } else if str_eq(new_phase, "Matchmaking") {
        str_eq(old_phase, "InProgress") || str_eq(old_phase, "Reconnect") || str_eq(old_phase, "ChampSelect")
    } else {
        false
    }
}

/// Records a new client phase. A repeated phase changes nothing. Otherwise the
/// cleanup rule decides whether the injection ends (and with it the
/// once-per-phase flag); entering champion select starts a new session and
/// forgets the last signature, the friends' skins and the share times; the
/// phase flags follow the new phase.
pub fn handle_phase_change(state: &mut WatcherState, new_phase: &str, manual_injection_active: bool) -> (r: PhaseChange)
    ensures
        old(state).last_phase@ == new_phase@ ==> !r.changed && !r.cleanup && !r.entered_champ_select
            && !r.trigger_manual_injection && *final(state) == *old(state),
        old(state).last_phase@ != new_phase@ ==> {
            let entered = new_phase@ == "ChampSelect"@;
            &&& r.changed
            &&& r.cleanup == should_cleanup(old(state).last_phase@, new_phase@)
            &&& r.entered_champ_select == entered
            &&& r.trigger_manual_injection == (manual_injection_active && (entered
                || (old(state).last_phase@ == "Lobby"@ && new_phase@ == "Matchmaking"@)))
            &&& final(state).last_phase@ == new_phase@
            &&& final(state).was_reconnecting == (new_phase@ == "Reconnect"@)
            &&& final(state).was_in_game == (new_phase@ == "InProgress"@ || new_phase@ == "Reconnect"@)
            &&& final(state).phase_state == if entered { 1u8 } else { 2u8 }
            &&& final(state).party_injection_done_this_phase == (old(state).party_injection_done_this_phase
                && !r.cleanup && !entered)
            &&& entered ==> {
                &&& final(state).last_party_injection_signature is None
                &&& final(state).received_skins@.len() == 0
                &&& final(state).last_champion_share_time@ == Map::<u32, u64>::empty()
                &&& final(state).champ_select_session_counter == old(state).champ_select_session_counter.wrapping_add(1)
                &&& final(state).last_shared_champion_id == 0
                &&& final(state).last_reinjection_time_ms == 0
            }
            &&& !entered ==> {
                &&& final(state).last_party_injection_signature == old(state).last_party_injection_signature
                &&& final(state).received_skins == old(state).received_skins
                &&& final(state).last_champion_share_time == old(state).last_champion_share_time
                &&& final(state).champ_select_session_counter == old(state).champ_select_session_counter
                &&& final(state).champ_select_start_time_ms == old(state).champ_select_start_time_ms
                &&& final(state).last_shared_champion_id == old(state).last_shared_champion_id
                &&& final(state).last_reinjection_time_ms == old(state).last_reinjection_time_ms
            }
            &&& final(state).last_instant_assign_champions == old(state).last_instant_assign_champions
            &&& final(state).lcu_watcher_instance_id == old(state).lcu_watcher_instance_id
            &&& final(state).lcu_watcher_active == old(state).lcu_watcher_active
            &&& final(state).last_champion_id == old(state).last_champion_id
            &&& final(state).last_selected_skins == old(state).last_selected_skins
            &&& final(state).last_party_injection_check_ms == old(state).last_party_injection_check_ms
            &&& final(state).last_party_injection_time_ms == old(state).last_party_injection_time_ms
        },
{
    if str_eq(state.last_phase.as_str(), new_phase) {
        return PhaseChange { changed: false, cleanup: false, entered_champ_select: false, trigger_manual_injection: false };
    }
    let cleanup = cleanup_needed(state.last_phase.as_str(), new_phase);
    if cleanup {
        state.party_injection_done_this_phase = false;
    }
    let entered = str_eq(new_phase, "ChampSelect");
    if entered {
        start_new_champ_select_session(state);
        state.last_party_injection_signature = None;
        clear_received_skins(&mut state.received_skins);
        state.last_champion_share_time.clear();
        state.party_injection_done_this_phase = false;
    }
    let lobby_to_queue = str_eq(state.last_phase.as_str(), "Lobby") && str_eq(new_phase, "Matchmaking");
    let trigger = manual_injection_active && (entered || lobby_to_queue);
    state.last_phase = String::from_str(new_phase);
    state.was_reconnecting = str_eq(new_phase, "Reconnect");
    state.was_in_game = str_eq(new_phase, "InProgress") || state.was_reconnecting;
    state.phase_state = if entered { 1 } else { 2 };
    PhaseChange { changed: true, cleanup, entered_champ_select: entered, trigger_manual_injection: trigger }
}


/// The one-line summary of a champion-select session document that the
/// watcher writes to its log: the phase, whether game data is present and
/// how many actions there are, each where the document has that member.
pub open spec fn json_summary_of(j: Json) -> Seq<char> {
    let phase = match jget(j, "phase"@) {
        Some(p) => "phase: "@ + match as_str_of(p) {
            Some(s) => s,
            None => "unknown"@,
        } + ", "@,
        None => Seq::empty(),
    };
    let game = match jget(j, "gameData"@) {
        Some(_) => "gameData: {...}, "@,
        None => Seq::empty(),
    };
    let actions = match jget(j, "actions"@) {
        Some(a) => "actions: ["@ + dec(match as_array_of(a) {
            Some(v) => v.len(),
            None => 0,
        }) + " items], "@,
        None => Seq::empty(),
    };
    let all = phase + game + actions;
    if all.len() == 0 { "[Response summary unavailable]"@ } else { all }
}

/// Summarises a session document for the log.
pub fn format_json_summary(json: &Json) -> (r: String)
    ensures
        r@ == json_summary_of(*json),
{
    let mut summary = String::new();
    let mut any = false;
    proof {
        reveal_strlit("phase: ");
        reveal_strlit("gameData: {...}, ");
        reveal_strlit("actions: [");
    }
    let ghost mut phase: Seq<char> = Seq::empty();
    let ghost mut game: Seq<char> = Seq::empty();
    let ghost mut actions: Seq<char> = Seq::empty();
    if let Some(p) = json.get("phase") {
        push_str(&mut summary, "phase: ");
        match p.as_str() {
            Some(s) => push_str(&mut summary, s),
            None => push_str(&mut summary, "unknown"),
        }
        push_str(&mut summary, ", ");
        any = true;
        proof {
            phase = summary@;
        }
    }
    if let Some(_g) = json.get("gameData") {
        push_str(&mut summary, "gameData: {...}, ");
        any = true;
        proof {
            game = "gameData: {...}, "@;
        }
    }
    let ghost before_actions = summary@;
    if let Some(a) = json.get("actions") {
        push_str(&mut summary, "actions: [");
        let n: usize = match a.as_array() {
            Some(v) => v.len(),
            None => 0,
        };
        write_dec(&mut summary, n as u64);
        push_str(&mut summary, " items], ");
        any = true;
        proof {
            actions = summary@.subrange(before_actions.len() as int, summary@.len() as int);
            assert(summary@ =~= before_actions + actions);
        }
    }
    proof {
        assert(summary@ =~= phase + game + actions);
    }
    if !any {
        return String::from_str("[Response summary unavailable]");
    }
    summary
}

} // verus!
