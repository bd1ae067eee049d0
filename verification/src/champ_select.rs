//! Reading the local player's champion choices out of client session data.
use vstd::prelude::*;
use crate::text::str_eq;
use crate::json::{Json, jget, members_get, get_i64, get_str, get_array, as_i64_of, as_array_of, get_i64_or_zero, get_bool_or_false, str_member_is};

verus! {

// ---------------------------------------------------------------------------
// Collecting distinct positive champion ids
// ---------------------------------------------------------------------------

/// Appends a candidate id when it is positive and not yet collected.
pub open spec fn push_new_positive(acc: Seq<i64>, x: Option<i64>) -> Seq<i64> {
    match x {
        Some(id) => if id > 0 && !acc.contains(id) { acc.push(id) } else { acc },
        None => acc,
    }
}

/// Folds `push_new_positive` over candidates, first to last.
pub open spec fn add_new_positives(acc: Seq<i64>, xs: Seq<Option<i64>>) -> Seq<i64>
    decreases xs.len(),
{
    if xs.len() == 0 {
        acc
    } else {
        add_new_positives(push_new_positive(acc, xs[0]), xs.drop_first())
    }
}

/// Collecting two candidate lists in turn is collecting their concatenation.
pub proof fn lemma_add_new_positives_concat(acc: Seq<i64>, a: Seq<Option<i64>>, b: Seq<Option<i64>>)
    ensures
        add_new_positives(acc, a + b) == add_new_positives(add_new_positives(acc, a), b),
    decreases a.len(),
{
    if a.len() == 0 {
        assert(a + b =~= b);
    } else {
        assert((a + b).drop_first() =~= a.drop_first() + b);
        assert((a + b)[0] == a[0]);
        lemma_add_new_positives_concat(push_new_positive(acc, a[0]), a.drop_first(), b);
    }
}

/// One step of the fold, seen from a suffix of the candidates.
pub proof fn lemma_add_new_positives_step(acc: Seq<i64>, xs: Seq<Option<i64>>, i: int)
    requires
        0 <= i < xs.len(),
    ensures
        add_new_positives(acc, xs.skip(i)) == add_new_positives(push_new_positive(acc, xs[i]), xs.skip(i + 1)),
{
    assert(xs.skip(i).drop_first() =~= xs.skip(i + 1));
    assert(xs.skip(i)[0] == xs[i]);
}

/// Everything collected is positive and nothing is collected twice.
pub open spec fn distinct_positive(s: Seq<i64>) -> bool {
    &&& forall|i: int| 0 <= i < s.len() ==> s[i] > 0
    &&& forall|i: int, j: int| 0 <= i < j < s.len() ==> s[i] != s[j]
}

/// Collecting keeps what was collected before and keeps it distinct and positive.
pub proof fn lemma_add_new_positives_props(acc: Seq<i64>, xs: Seq<Option<i64>>)
    requires
        distinct_positive(acc),
    ensures
        distinct_positive(add_new_positives(acc, xs)),
        add_new_positives(acc, xs).len() >= acc.len(),
        add_new_positives(acc, xs).subrange(0, acc.len() as int) == acc,
    decreases xs.len(),
{
    if xs.len() > 0 {
        let next = push_new_positive(acc, xs[0]);
        assert(distinct_positive(next));
        assert(next.subrange(0, acc.len() as int) =~= acc);
        lemma_add_new_positives_props(next, xs.drop_first());
        let r = add_new_positives(next, xs.drop_first());
        assert(r.subrange(0, acc.len() as int) =~= r.subrange(0, next.len() as int).subrange(0, acc.len() as int));
    } else {
        assert(acc.subrange(0, acc.len() as int) =~= acc);
    }
}

/// Whether `v` holds `x`.
pub fn contains_i64(v: &Vec<i64>, x: i64) -> (r: bool)
    ensures
        r == v@.contains(x),
{
    let mut i: usize = 0;
    while i < v.len()
        invariant
            0 <= i <= v.len(),
            forall|k: int| 0 <= k < i ==> v@[k] != x,
        decreases v.len() - i,
    {
        if v[i] == x {
            assert(v@[i as int] == x);
            return true;
        }
        i = i + 1;
    }
    false
}

/// Adds a candidate id to `acc` when it is positive and new.
pub fn push_new_positive_exec(acc: &mut Vec<i64>, x: Option<i64>)
    ensures
        final(acc)@ == push_new_positive(old(acc)@, x),
{
    if let Some(id) = x {
        if id > 0 && !contains_i64(acc, id) {
            acc.push(id);
        }
    }
}

// ---------------------------------------------------------------------------
// Candidate lists read from arrays of objects
// ---------------------------------------------------------------------------

/// The integer member `key` of each element.
pub open spec fn member_ids(s: Seq<Json>, key: Seq<char>) -> Seq<Option<i64>> {
    s.map_values(|e: Json| get_i64(e, key))
}

/// Each element read as an integer.
pub open spec fn element_ids(s: Seq<Json>) -> Seq<Option<i64>> {
    s.map_values(|e: Json| as_i64_of(e))
}

/// Adds the integer member `key` of each element of `items` to `acc`, in order.
pub fn add_member_ids(acc: &mut Vec<i64>, items: &Vec<Json>, key: &str)
    ensures
        final(acc)@ == add_new_positives(old(acc)@, member_ids(items@, key@)),
{
    let ghost cands = member_ids(items@, key@);
    let mut i: usize = 0;
    proof {
        assert(cands.skip(0) =~= cands);
    }
    while i < items.len()
        invariant
            0 <= i <= items.len(),
            cands == member_ids(items@, key@),
            add_new_positives(old(acc)@, cands) == add_new_positives(acc@, cands.skip(i as int)),
        decreases items.len() - i,
    {
        proof {
            lemma_add_new_positives_step(acc@, cands, i as int);
        }
        let x = items[i].get_i64(key);
        push_new_positive_exec(acc, x);
        i = i + 1;
    }
    proof {
        assert(cands.skip(i as int).len() == 0);
    }
}

/// Adds each element of `items`, read as an integer, to `acc`, in order.
pub fn add_element_ids(acc: &mut Vec<i64>, items: &Vec<Json>)
    ensures
        final(acc)@ == add_new_positives(old(acc)@, element_ids(items@)),
{
    let ghost cands = element_ids(items@);
    let mut i: usize = 0;
    proof {
        assert(cands.skip(0) =~= cands);
    }
    while i < items.len()
        invariant
            0 <= i <= items.len(),
            cands == element_ids(items@),
            add_new_positives(old(acc)@, cands) == add_new_positives(acc@, cands.skip(i as int)),
        decreases items.len() - i,
    {
        proof {
            lemma_add_new_positives_step(acc@, cands, i as int);
        }
        let x = items[i].as_i64();
        push_new_positive_exec(acc, x);
        i = i + 1;
    }
    proof {
        assert(cands.skip(i as int).len() == 0);
    }
}
// ---------------------------------------------------------------------------
// Champions placed in the lobby's player slots
// ---------------------------------------------------------------------------

/// The champion ids in `localMember.playerSlots`, distinct, positive, in slot order.
pub open spec fn lobby_slot_champions(j: Json) -> Seq<i64> {
    match jget(j, "localMember"@) {
        Some(lm) => match get_array(lm, "playerSlots"@) {
            Some(slots) => add_new_positives(seq![], member_ids(slots, "championId"@)),
            None => seq![],
        },
        None => seq![],
    }
}

/// Reads the champions the local player placed in the lobby's slots (instant-assign queues).
pub fn extract_swift_play_champions_from_lobby(json: &Json) -> (ids: Vec<i64>)
    ensures
        ids@ == lobby_slot_champions(*json),
{
    let mut ids: Vec<i64> = Vec::new();
    if let Some(local_member) = json.get("localMember") {
        if let Some(slots) = local_member.get_array("playerSlots") {
            add_member_ids(&mut ids, slots, "championId");
        }
    }
    ids
}

// ---------------------------------------------------------------------------
// Instant-assign selections in a gameflow session
// ---------------------------------------------------------------------------

/// `localPlayerSelection.summonerId`.
pub open spec fn local_selection_summoner_id(j: Json) -> Option<i64> {
    match jget(j, "localPlayerSelection"@) {
        Some(lp) => get_i64(lp, "summonerId"@),
        None => None,
    }
}

/// The `championIds` of the selections whose `summonerId` is `local`, in order.
pub open spec fn selection_champion_candidates(sels: Seq<Json>, local: i64) -> Seq<Option<i64>>
    decreases sels.len(),
{
    if sels.len() == 0 {
        seq![]
    } else {
        let here = if get_i64(sels[0], "summonerId"@) == Some(local) {
            match get_array(sels[0], "championIds"@) {
                Some(ids) => element_ids(ids),
                None => seq![],
            }
        } else {
            seq![]
        };
        here + selection_champion_candidates(sels.drop_first(), local)
    }
}

/// The primary and secondary champion of the team members named `name`, in order.
pub open spec fn team_name_candidates(team: Seq<Json>, name: Seq<char>) -> Seq<Option<i64>>
    decreases team.len(),
{
    if team.len() == 0 {
        seq![]
    } else {
        let here = if get_str(team[0], "summonerName"@) == Some(name) {
            seq![get_i64(team[0], "championId"@), get_i64(team[0], "secondaryChampionId"@)]
        } else {
            seq![]
        };
        here + team_name_candidates(team.drop_first(), name)
    }
}

/// First source: the local player's entry in `gameData.playerChampionSelections`.
pub open spec fn swift_from_player_selections(j: Json) -> Seq<i64> {
    match jget(j, "gameData"@) {
        Some(gd) => match get_array(gd, "playerChampionSelections"@) {
            Some(sels) => match local_selection_summoner_id(j) {
                Some(lid) => add_new_positives(seq![], selection_champion_candidates(sels, lid)),
                None => seq![],
            },
            None => seq![],
        },
        None => seq![],
    }
}

/// Second source: `gameData.selectedChampions`.
pub open spec fn swift_from_selected_champions(j: Json) -> Seq<i64> {
    match jget(j, "gameData"@) {
        Some(gd) => match get_array(gd, "selectedChampions"@) {
            Some(sels) => add_new_positives(seq![], member_ids(sels, "championId"@)),
            None => seq![],
        },
        None => seq![],
    }
}

/// The `playerName` member, empty where missing.
pub open spec fn player_name_of(j: Json) -> Seq<char> {
    match get_str(j, "playerName"@) {
        Some(s) => s,
        None => seq![],
    }
}

/// Third source: the `myTeam` entries named like `playerName`.
pub open spec fn swift_from_team(j: Json) -> Seq<i64> {
    match get_array(j, "myTeam"@) {
        Some(team) => add_new_positives(seq![], team_name_candidates(team, player_name_of(j))),
        None => seq![],
    }
}

/// Fourth source: `roleAssignments`.
pub open spec fn swift_from_role_assignments(j: Json) -> Seq<i64> {
    match get_array(j, "roleAssignments"@) {
        Some(roles) => add_new_positives(seq![], member_ids(roles, "championId"@)),
        None => seq![],
    }
}

/// The instant-assign champions of a session: the first source that yields any.
pub open spec fn swift_play_selections(j: Json) -> Seq<i64> {
    let a = swift_from_player_selections(j);
    let b = swift_from_selected_champions(j);
    let c = swift_from_team(j);
    let d = swift_from_role_assignments(j);
    if a.len() > 0 {
        a
    } else if b.len() > 0 {
        b
    } else if c.len() > 0 {
        c
    } else if d.len() > 0 {
        d
    } else {
        lobby_slot_champions(j)
    }
}

fn add_selection_champions(acc: &mut Vec<i64>, sels: &Vec<Json>, local: i64)
    ensures
        final(acc)@ == add_new_positives(old(acc)@, selection_champion_candidates(sels@, local)),
{
    let mut i: usize = 0;
    proof {
        assert(sels@.skip(0) =~= sels@);
    }
    while i < sels.len()
        invariant
            0 <= i <= sels.len(),
            add_new_positives(old(acc)@, selection_champion_candidates(sels@, local))
                == add_new_positives(acc@, selection_champion_candidates(sels@.skip(i as int), local)),
        decreases sels.len() - i,
    {
        let ghost rest = sels@.skip(i as int);
        proof {
            assert(rest.drop_first() =~= sels@.skip(i as int + 1));
            assert(rest[0] == sels@[i as int]);
        }
        let sel = &sels[i];
        let ghost here: Seq<Option<i64>> = if get_i64(*sel, "summonerId"@) == Some(local) {
            match get_array(*sel, "championIds"@) {
                Some(ids) => element_ids(ids),
                None => seq![],
            }
        } else {
            seq![]
        };
        proof {
            lemma_add_new_positives_concat(acc@, here, selection_champion_candidates(sels@.skip(i as int + 1), local));
        }
        if sel.get_i64("summonerId") == Some(local) {
            if let Some(ids) = sel.get_array("championIds") {
                add_element_ids(acc, ids);
            } else {
                assert(add_new_positives(acc@, here) =~= acc@);
            }
        } else {
            assert(add_new_positives(acc@, here) =~= acc@);
        }
        i = i + 1;
    }
    proof {
        assert(sels@.skip(i as int).len() == 0);
    }
}

fn add_team_name_champions(acc: &mut Vec<i64>, team: &Vec<Json>, name: &str)
    ensures
        final(acc)@ == add_new_positives(old(acc)@, team_name_candidates(team@, name@)),
{
    let mut i: usize = 0;
    proof {
        assert(team@.skip(0) =~= team@);
    }
    while i < team.len()
        invariant
            0 <= i <= team.len(),
            add_new_positives(old(acc)@, team_name_candidates(team@, name@))
                == add_new_positives(acc@, team_name_candidates(team@.skip(i as int), name@)),
        decreases team.len() - i,
    {
        let ghost rest = team@.skip(i as int);
        proof {
            assert(rest.drop_first() =~= team@.skip(i as int + 1));
            assert(rest[0] == team@[i as int]);
        }
        let p = &team[i];
        let ghost here: Seq<Option<i64>> = if get_str(*p, "summonerName"@) == Some(name@) {
            seq![get_i64(*p, "championId"@), get_i64(*p, "secondaryChampionId"@)]
        } else {
            seq![]
        };
        proof {
            lemma_add_new_positives_concat(acc@, here, team_name_candidates(team@.skip(i as int + 1), name@));
        }
        if p.str_member_is("summonerName", name) {
            let ghost before = acc@;
            push_new_positive_exec(acc, p.get_i64("championId"));
            push_new_positive_exec(acc, p.get_i64("secondaryChampionId"));
            proof {
                reveal_with_fuel(add_new_positives, 3);
                assert(here.drop_first()[0] == here[1]);
                assert(here.drop_first().drop_first() =~= Seq::<Option<i64>>::empty());
                assert(add_new_positives(before, here) == acc@);
            }
        } else {
            assert(add_new_positives(acc@, here) =~= acc@);
        }
        i = i + 1;
    }
    proof {
        assert(team@.skip(i as int).len() == 0);
    }
}

/// Reads the instant-assign champion selections of the local player from a gameflow session.
pub fn get_swift_play_champion_selections(json: &Json) -> (ids: Vec<i64>)
    ensures
        ids@ == swift_play_selections(*json),
{
    let mut ids: Vec<i64> = Vec::new();
    assert(ids@ =~= seq![]);
    if let Some(game_data) = json.get("gameData") {
        if let Some(sels) = game_data.get_array("playerChampionSelections") {
            let local = match json.get("localPlayerSelection") {
                Some(lp) => lp.get_i64("summonerId"),
                None => None,
            };
            if let Some(lid) = local {
                add_selection_champions(&mut ids, sels, lid);
            }
        }
    }
    assert(ids@ == swift_from_player_selections(*json));
    if ids.len() == 0 {
        assert(ids@ =~= seq![]);
        if let Some(game_data) = json.get("gameData") {
            if let Some(sels) = game_data.get_array("selectedChampions") {
                add_member_ids(&mut ids, sels, "championId");
            }
        }
    }
    assert(swift_from_player_selections(*json).len() == 0 ==> ids@ == swift_from_selected_champions(*json));
    if ids.len() == 0 {
        assert(ids@ =~= seq![]);
        if let Some(team) = json.get_array("myTeam") {
            proof {
                reveal_strlit("");
            }
            let name: &str = match json.get_str("playerName") {
                Some(s) => s,
                None => "",
            };
            assert(name@ == player_name_of(*json));
            add_team_name_champions(&mut ids, team, name);
        }
    }
    if ids.len() == 0 {
        assert(ids@ =~= seq![]);
        if let Some(roles) = json.get_array("roleAssignments") {
            add_member_ids(&mut ids, roles, "championId");
        }
    }
    if ids.len() == 0 {
        ids = extract_swift_play_champions_from_lobby(json);
    }
    ids
}

// ---------------------------------------------------------------------------
// The champion the local player has picked in champion select
// ---------------------------------------------------------------------------

/// A pick action of the local player that is still in progress.
pub open spec fn is_local_pick_in_progress(a: Json, local: i64) -> bool {
    &&& get_i64(a, "actorCellId"@) == Some(local)
    &&& str_member_is(a, "type"@, "pick"@)
    &&& get_bool_or_false(a, "isInProgress"@)
}

/// Whether an action group holds such an action.
pub open spec fn group_has_pick_in_progress(g: Json, local: i64) -> bool {
    match as_array_of(g) {
        Some(acts) => exists|k: int| 0 <= k < acts.len() && is_local_pick_in_progress(#[trigger] acts[k], local),
        None => false,
    }
}

/// Whether any action group holds such an action.
pub open spec fn any_pick_in_progress(groups: Seq<Json>, local: i64) -> bool {
    exists|k: int| 0 <= k < groups.len() && group_has_pick_in_progress(#[trigger] groups[k], local)
}

/// The champion of a completed pick action of the local player, if positive.
pub open spec fn completed_pick_of(a: Json, local: i64) -> Option<i64> {
    if get_i64(a, "actorCellId"@) == Some(local) && str_member_is(a, "type"@, "pick"@)
        && get_bool_or_false(a, "completed"@) && get_i64_or_zero(a, "championId"@) > 0 {
        Some(get_i64_or_zero(a, "championId"@))
    } else {
        None
    }
}

/// The first completed pick of the local player among `acts`.
pub open spec fn first_completed_pick(acts: Seq<Json>, local: i64) -> Option<i64>
    decreases acts.len(),
{
    if acts.len() == 0 {
        None
    } else {
        match completed_pick_of(acts[0], local) {
            Some(c) => Some(c),
            None => first_completed_pick(acts.drop_first(), local),
        }
    }
}

/// The first completed pick of the local player, group by group.
pub open spec fn first_completed_pick_in_groups(groups: Seq<Json>, local: i64) -> Option<i64>
    decreases groups.len(),
{
    if groups.len() == 0 {
        None
    } else {
        let here = match as_array_of(groups[0]) {
            Some(acts) => first_completed_pick(acts, local),
            None => None,
        };
        match here {
            Some(c) => Some(c),
            None => first_completed_pick_in_groups(groups.drop_first(), local),
        }
    }
}

/// The positive champion of the team member in cell `local`.
pub open spec fn team_champion_of(p: Json, local: i64) -> Option<i64> {
    if get_i64(p, "cellId"@) == Some(local) && get_i64_or_zero(p, "championId"@) > 0 {
        Some(get_i64_or_zero(p, "championId"@))
    } else {
        None
    }
}

/// The first team member in cell `local` with a positive champion.
pub open spec fn first_team_champion(team: Seq<Json>, local: i64) -> Option<i64>
    decreases team.len(),
{
    if team.len() == 0 {
        None
    } else {
        match team_champion_of(team[0], local) {
            Some(c) => Some(c),
            None => first_team_champion(team.drop_first(), local),
        }
    }
}

/// The champion the local player holds in a champion-select session: none while
/// their pick is in progress; else their first completed pick; else the champion
/// their `myTeam` entry shows (modes that assign champions).
pub open spec fn selected_champion_id(j: Json) -> Option<i64> {
    match get_i64(j, "localPlayerCellId"@) {
        None => None,
        Some(local) => {
            let from_actions: Option<Option<i64>> = match get_array(j, "actions"@) {
                Some(groups) => if any_pick_in_progress(groups, local) {
                    Some(None)
                } else {
                    match first_completed_pick_in_groups(groups, local) {
                        Some(c) => Some(Some(c)),
                        None => None,
                    }
                },
                None => None,
            };
            match from_actions {
                Some(r) => r,
                None => match get_array(j, "myTeam"@) {
                    Some(team) => first_team_champion(team, local),
                    None => None,
                },
            }
        },
    }
}

proof fn lemma_group_has_pick(g: Json, local: i64, acts: Seq<Json>, k: int)
    requires
        as_array_of(g) == Some(acts),
        0 <= k < acts.len(),
        is_local_pick_in_progress(acts[k], local),
    ensures
        group_has_pick_in_progress(g, local),
{
    assert(exists|k2: int| 0 <= k2 < acts.len() && is_local_pick_in_progress(#[trigger] acts[k2], local));
    let ghost p = as_array_of(g)->0;
    assert(p == acts);
}

fn pick_in_progress_exec(groups: &Vec<Json>, local: i64) -> (r: bool)
    ensures
        r == any_pick_in_progress(groups@, local),
{
    let mut i: usize = 0;
    while i < groups.len()
        invariant
            0 <= i <= groups.len(),
            forall|k: int| 0 <= k < i ==> !group_has_pick_in_progress(#[trigger] groups@[k], local),
        decreases groups.len() - i,
    {
        if let Some(acts) = groups[i].as_array() {
            let mut j: usize = 0;
            while j < acts.len()
                invariant
                    0 <= j <= acts.len(),
                    i < groups.len(),
                    forall|k: int| 0 <= k < i ==> !group_has_pick_in_progress(#[trigger] groups@[k], local),
                    as_array_of(groups@[i as int]) == Some(acts@),
                    forall|m: int| 0 <= m < j ==> !is_local_pick_in_progress(#[trigger] acts@[m], local),
                decreases acts.len() - j,
            {
                let a = &acts[j];
                if a.get_i64("actorCellId") == Some(local) && a.str_member_is("type", "pick")
                    && a.get_bool_or_false("isInProgress") {
                    assert(is_local_pick_in_progress(acts@[j as int], local));
                    proof {
                        lemma_group_has_pick(groups@[i as int], local, acts@, j as int);
                    }
                    return true;
                }
                j = j + 1;
            }
        }
        i = i + 1;
    }
    false
}

fn first_completed_pick_exec(acts: &Vec<Json>, local: i64) -> (r: Option<i64>)
    ensures
        r == first_completed_pick(acts@, local),
{
    let mut j: usize = 0;
    proof {
        assert(acts@.skip(0) =~= acts@);
    }
    while j < acts.len()
        invariant
            0 <= j <= acts.len(),
            first_completed_pick(acts@, local) == first_completed_pick(acts@.skip(j as int), local),
        decreases acts.len() - j,
    {
        proof {
            assert(acts@.skip(j as int).drop_first() =~= acts@.skip(j as int + 1));
            assert(acts@.skip(j as int)[0] == acts@[j as int]);
        }
        let a = &acts[j];
        let champ = a.get_i64_or_zero("championId");
        if a.get_i64("actorCellId") == Some(local) && a.str_member_is("type", "pick")
            && a.get_bool_or_false("completed") && champ > 0 {
            return Some(champ);
        }
        j = j + 1;
    }
    proof {
        assert(acts@.skip(j as int).len() == 0);
    }
    None
}

fn first_completed_pick_in_groups_exec(groups: &Vec<Json>, local: i64) -> (r: Option<i64>)
    ensures
        r == first_completed_pick_in_groups(groups@, local),
{
    let mut i: usize = 0;
    proof {
        assert(groups@.skip(0) =~= groups@);
    }
    while i < groups.len()
        invariant
            0 <= i <= groups.len(),
            first_completed_pick_in_groups(groups@, local) == first_completed_pick_in_groups(groups@.skip(i as int), local),
        decreases groups.len() - i,
    {
        proof {
            assert(groups@.skip(i as int).drop_first() =~= groups@.skip(i as int + 1));
            assert(groups@.skip(i as int)[0] == groups@[i as int]);
        }
        if let Some(acts) = groups[i].as_array() {
            let found = first_completed_pick_exec(acts, local);
            if found.is_some() {
                return found;
            }
        }
        i = i + 1;
    }
    proof {
        assert(groups@.skip(i as int).len() == 0);
    }
    None
}

fn first_team_champion_exec(team: &Vec<Json>, local: i64) -> (r: Option<i64>)
    ensures
        r == first_team_champion(team@, local),
{
    let mut i: usize = 0;
    proof {
        assert(team@.skip(0) =~= team@);
    }
    while i < team.len()
        invariant
            0 <= i <= team.len(),
            first_team_champion(team@, local) == first_team_champion(team@.skip(i as int), local),
        decreases team.len() - i,
    {
        proof {
            assert(team@.skip(i as int).drop_first() =~= team@.skip(i as int + 1));
            assert(team@.skip(i as int)[0] == team@[i as int]);
        }
        let p = &team[i];
        let champ = p.get_i64_or_zero("championId");
        if p.get_i64("cellId") == Some(local) && champ > 0 {
            return Some(champ);
        }
        i = i + 1;
    }
    proof {
        assert(team@.skip(i as int).len() == 0);
    }
    None
}

/// Reads the champion the local player has locked in from a champion-select session.
pub fn get_selected_champion_id(session_json: &Json) -> (r: Option<i64>)
    ensures
        r == selected_champion_id(*session_json),
{
    let local = match session_json.get_i64("localPlayerCellId") {
        Some(l) => l,
        None => return None,
    };
    if let Some(groups) = session_json.get_array("actions") {
        if pick_in_progress_exec(groups, local) {
            return None;
        }
        let found = first_completed_pick_in_groups_exec(groups, local);
        if found.is_some() {
            return found;
        }
    }
    if let Some(team) = session_json.get_array("myTeam") {
        return first_team_champion_exec(team, local);
    }
    None
}

// ---------------------------------------------------------------------------
// Champions of an instant-assign queue, read when matchmaking starts
// ---------------------------------------------------------------------------

/// The `championIds` of every entry, in order.
pub open spec fn all_selection_champion_candidates(sels: Seq<Json>) -> Seq<Option<i64>>
    decreases sels.len(),
{
    if sels.len() == 0 {
        seq![]
    } else {
        let here = match get_array(sels[0], "championIds"@) {
            Some(ids) => element_ids(ids),
            None => seq![],
        };
        here + all_selection_champion_candidates(sels.drop_first())
    }
}

/// The champions of a gameflow session when matchmaking starts: the local
/// selections, then any further `selectedChampions`, then any further champion
/// of `playerChampionSelections`.
pub open spec fn instant_assign_session_champions_of(j: Json) -> Seq<i64> {
    let base = swift_play_selections(j);
    match jget(j, "gameData"@) {
        Some(gd) => {
            let with_selected = match get_array(gd, "selectedChampions"@) {
                Some(sel) => add_new_positives(base, member_ids(sel, "championId"@)),
                None => base,
            };
            match get_array(gd, "playerChampionSelections"@) {
                Some(pcs) => add_new_positives(with_selected, all_selection_champion_candidates(pcs)),
                None => with_selected,
            }
        },
        None => base,
    }
}

fn add_all_selection_champions(acc: &mut Vec<i64>, sels: &Vec<Json>)
    ensures
        final(acc)@ == add_new_positives(old(acc)@, all_selection_champion_candidates(sels@)),
{
    let mut i: usize = 0;
    proof {
        assert(sels@.skip(0) =~= sels@);
    }
    while i < sels.len()
        invariant
            0 <= i <= sels.len(),
            add_new_positives(old(acc)@, all_selection_champion_candidates(sels@))
                == add_new_positives(acc@, all_selection_champion_candidates(sels@.skip(i as int))),
        decreases sels.len() - i,
    {
        let ghost rest = sels@.skip(i as int);
        proof {
            assert(rest.drop_first() =~= sels@.skip(i as int + 1));
            assert(rest[0] == sels@[i as int]);
        }
        let sel = &sels[i];
        let ghost here: Seq<Option<i64>> = match get_array(*sel, "championIds"@) {
            Some(ids) => element_ids(ids),
            None => seq![],
        };
        proof {
            lemma_add_new_positives_concat(acc@, here, all_selection_champion_candidates(sels@.skip(i as int + 1)));
        }
        if let Some(ids) = sel.get_array("championIds") {
            add_element_ids(acc, ids);
        } else {
            assert(add_new_positives(acc@, here) =~= acc@);
        }
        i = i + 1;
    }
    proof {
        assert(sels@.skip(i as int).len() == 0);
    }
}

/// Reads the champions of an instant-assign queue from the gameflow session.
pub fn instant_assign_session_champions(session: &Json) -> (ids: Vec<i64>)
    ensures
        ids@ == instant_assign_session_champions_of(*session),
{
    let mut ids = get_swift_play_champion_selections(session);
    if let Some(game_data) = session.get("gameData") {
        if let Some(sel) = game_data.get_array("selectedChampions") {
            add_member_ids(&mut ids, sel, "championId");
        }
        if let Some(pcs) = game_data.get_array("playerChampionSelections") {
            add_all_selection_champions(&mut ids, pcs);
        }
    }
    ids
}

// ---------------------------------------------------------------------------
// Events of the client's event stream
// ---------------------------------------------------------------------------

/// An API event: the resource it concerns and its new data.
#[derive(Debug, PartialEq)]
pub struct LcuEvent {
    pub uri: String,
    pub data: Json,
}

/// The event an event-stream message carries: a message is an array whose third
/// element is an object with the resource (`uri`, empty where missing) and the
/// data (`data`, null where missing).
pub open spec fn lcu_event_of(msg: Json) -> Option<(Seq<char>, Json)> {
    match msg {
        Json::Array(arr) => if arr@.len() >= 3 {
            match arr@[2] {
                Json::Object(es) => Some((
                    match get_str(arr@[2], "uri"@) { Some(u) => u, None => seq![] },
                    match jget(arr@[2], "data"@) { Some(d) => d, None => Json::Null },
                )),
                _ => None,
            }
        } else {
            None
        },
        _ => None,
    }
}

fn member_index(es: &Vec<(String, Json)>, key: &str) -> (r: Option<usize>)
    ensures
        match r {
            Some(i) => i < es@.len() && es@[i as int].0@ == key@ && members_get_is_at(es@, key@, i as int),
            None => members_get(es@, key@) is None,
        },
{
    let mut i: usize = 0;
    while i < es.len()
        invariant
            0 <= i <= es.len(),
            forall|k: int| 0 <= k < i ==> es@[k].0@ != key@,
        decreases es.len() - i,
    {
        if str_eq(es[i].0.as_str(), key) {
            proof {
                lemma_members_get_first(es@, key@, i as int);
            }
            return Some(i);
        }
        i = i + 1;
    }
    proof {
        lemma_members_get_absent(es@, key@);
    }
    None
}

/// The first member with key `key` sits at `i`.
pub open spec fn members_get_is_at(es: Seq<(String, Json)>, key: Seq<char>, i: int) -> bool {
    members_get(es, key) == Some(es[i].1)
}

proof fn lemma_members_get_first(es: Seq<(String, Json)>, key: Seq<char>, i: int)
    requires
        0 <= i < es.len(),
        es[i].0@ == key,
        forall|k: int| 0 <= k < i ==> es[k].0@ != key,
    ensures
        members_get(es, key) == Some(es[i].1),
    decreases i,
{
    if i > 0 {
        assert forall|k: int| 0 <= k < i - 1 implies es.drop_first()[k].0@ != key by {
            assert(es.drop_first()[k] == es[k + 1]);
        }
        assert(es.drop_first()[i - 1] == es[i]);
        lemma_members_get_first(es.drop_first(), key, i - 1);
    }
}

proof fn lemma_members_get_absent(es: Seq<(String, Json)>, key: Seq<char>)
    requires
        forall|k: int| 0 <= k < es.len() ==> es[k].0@ != key,
    ensures
        members_get(es, key) is None,
    decreases es.len(),
{
    if es.len() > 0 {
        assert forall|k: int| 0 <= k < es.drop_first().len() implies es.drop_first()[k].0@ != key by {
            assert(es.drop_first()[k] == es[k + 1]);
        }
        lemma_members_get_absent(es.drop_first(), key);
    }
}

/// Reads an API event out of an event-stream message.
pub fn parse_lcu_ws_event(msg: Json) -> (r: Option<LcuEvent>)
    ensures
        match r {
            Some(e) => lcu_event_of(msg) == Some((e.uri@, e.data)),
            None => lcu_event_of(msg) is None,
        },
{
    match msg {
        Json::Array(mut arr) => {
            if arr.len() < 3 {
                return None;
            }
            let ghost a = arr@;
            let third = arr.swap_remove(2);
            assert(third == a[2]);
            let uri = match third.get_str("uri") {
                Some(u) => String::from_str(u),
                None => {
                    proof {
                        reveal_strlit("");
                    }
                    String::new()
                },
            };
            match third {
                Json::Object(mut es) => {
                    let ghost e0 = es@;
                    let data = match member_index(&es, "data") {
                        Some(i) => {
                            let (_k, v) = es.swap_remove(i);
                            assert(v == e0[i as int].1);
                            v
                        },
                        None => Json::Null,
                    };
                    assert(uri@ == match get_str(a[2], "uri"@) { Some(u) => u, None => seq![] });
                    Some(LcuEvent { uri, data })
                },
                _ => None,
            }
        },
        _ => None,
    }
}

} // verus!
