//! Signatures of injection states: an injection is repeated only when its
//! signature changes.
use vstd::prelude::*;
use crate::text::{dec, views, join_seq, join, write_dec, push_str, u64_to_string};
use crate::sorting::{sorted_items, sort_strings_views, sorted_distinct, sorted_distinct_of};
use crate::party::InMemoryReceivedSkin;
use crate::watcher::WatcherState;
use crate::config::{SavedConfig, SkinData, CustomSkinData};
use crate::misc::MiscItem;

verus! {

/// `value` or zero.
pub open spec fn or_zero(v: Option<u32>) -> nat {
    match v {
        Some(x) => x as nat,
        None => 0,
    }
}

/// `"{from}:{champion}:{skin}:{chroma or 0}"`.
pub open spec fn share_part(s: InMemoryReceivedSkin) -> Seq<char> {
    s.from_summoner_id@ + seq![':'] + dec(s.champion_id as nat) + seq![':'] + dec(s.skin_id as nat)
        + seq![':'] + dec(or_zero(s.chroma_id))
}

/// The part of each stored skin.
pub open spec fn received_parts(r: Seq<(Seq<char>, InMemoryReceivedSkin)>) -> Seq<Seq<char>> {
    r.map_values(|e: (Seq<char>, InMemoryReceivedSkin)| share_part(e.1))
}

/// The party-injection signature: the champion, the number of received skins and
/// the received skins' parts in order.
pub open spec fn party_signature(champion_id: u32, r: Seq<(Seq<char>, InMemoryReceivedSkin)>) -> Seq<char> {
    let head = "champion:"@ + dec(champion_id as nat) + ":received:"@ + dec(r.len());
    if r.len() == 0 {
        head
    } else {
        head + "|"@ + join_seq(sorted_items(received_parts(r)), "|"@)
    }
}

fn share_part_exec(s: &InMemoryReceivedSkin) -> (r: String)
    ensures
        r@ == share_part(*s),
{
    let mut out = String::new();
    push_str(&mut out, s.from_summoner_id.as_str());
    crate::text::push_char(&mut out, ':');
    write_dec(&mut out, s.champion_id as u64);
    crate::text::push_char(&mut out, ':');
    write_dec(&mut out, s.skin_id as u64);
    crate::text::push_char(&mut out, ':');
    let chroma: u32 = match s.chroma_id {
        Some(c) => c,
        None => 0,
    };
    write_dec(&mut out, chroma as u64);
    assert(out@ =~= share_part(*s));
    out
}

/// Computes the party-injection signature for the champion and notes the champion
/// as the one the last signature was computed for.
pub fn compute_party_injection_signature(state: &mut WatcherState, current_champion_id: u32) -> (sig: String)
    ensures
        sig@ == party_signature(current_champion_id, old(state).received_skins@),
        *final(state) == (WatcherState { last_shared_champion_id: current_champion_id as u64, ..*old(state) }),
{
    let n = state.received_skins.len();
    let mut parts: Vec<String> = Vec::new();
    let mut i: usize = 0;
    while i < n
        invariant
            0 <= i <= n,
            n == state.received_skins@.len(),
            views(parts@) == received_parts(state.received_skins@.take(i as int)),
        decreases n - i,
    {
        let p = share_part_exec(state.received_skins.get(i));
        let ghost old_parts = parts@;
        parts.push(p);
        proof {
            assert(views(parts@) =~= views(old_parts).push(p@));
            assert(received_parts(state.received_skins@.take(i as int + 1))
                =~= received_parts(state.received_skins@.take(i as int)).push(share_part(state.received_skins@[i as int].1)));
            assert(views(parts@) =~= received_parts(state.received_skins@.take(i as int + 1)));
        }
        i = i + 1;
    }
    proof {
        assert(state.received_skins@.take(i as int) =~= state.received_skins@);
    }
    let sorted = sort_strings_views(parts);
    let mut sig = String::new();
    push_str(&mut sig, "champion:");
    write_dec(&mut sig, current_champion_id as u64);
    push_str(&mut sig, ":received:");
    write_dec(&mut sig, n as u64);
    if n > 0 {
        push_str(&mut sig, "|");
        let joined = join(&sorted, "|");
        push_str(&mut sig, joined.as_str());
    }
    state.last_shared_champion_id = current_champion_id as u64;
    sig
}

/// The first skin chosen for the champion.
pub open spec fn first_skin_for(skins: Seq<SkinData>, cid: u32) -> Option<SkinData>
    decreases skins.len(),
{
    if skins.len() == 0 {
        None
    } else if skins[0].champion_id == cid {
        Some(skins[0])
    } else {
        first_skin_for(skins.drop_first(), cid)
    }
}

/// The first custom skin chosen for the champion.
pub open spec fn first_custom_for(customs: Seq<CustomSkinData>, cid: u32) -> Option<CustomSkinData>
    decreases customs.len(),
{
    if customs.len() == 0 {
        None
    } else if customs[0].champion_id == cid {
        Some(customs[0])
    } else {
        first_custom_for(customs.drop_first(), cid)
    }
}

/// The characters of an optional string, empty where absent.
pub open spec fn str_or_empty(s: Option<String>) -> Seq<char> {
    match s {
        Some(x) => x@,
        None => seq![],
    }
}

/// What is chosen for a champion: `"{c}:skin:{skin}:{chroma or 0}:{file}"`,
/// `"{c}:custom:{path}"` or `"{c}:none"`.
pub open spec fn selection_part(config: SavedConfig, cid: u32) -> Seq<char> {
    match first_skin_for(config.skins@, cid) {
        Some(s) => dec(cid as nat) + ":skin:"@ + dec(s.skin_id as nat) + ":"@ + dec(or_zero(s.chroma_id)) + ":"@
            + str_or_empty(s.skin_file),
        None => match first_custom_for(config.custom_skins@, cid) {
            Some(c) => dec(cid as nat) + ":custom:"@ + c.file_path@,
            None => dec(cid as nat) + ":none"@,
        },
    }
}

/// `"{type}:{id}"`.
pub open spec fn misc_key(m: MiscItem) -> Seq<char> {
    m.item_type@ + ":"@ + m.id@
}

/// The instant-assign signature: the distinct champions in increasing order,
/// the sorted choices for them and the sorted miscellaneous items.
pub open spec fn instant_assign_signature(champion_ids: Seq<u32>, config: SavedConfig, misc: Seq<MiscItem>) -> Seq<char> {
    let champs = sorted_distinct_of(champion_ids);
    "champs:"@ + join_seq(champs.map_values(|c: u32| dec(c as nat)), ","@)
        + "|selections:"@ + join_seq(sorted_items(champs.map_values(|c: u32| selection_part(config, c))), "|"@)
        + "|misc:"@ + join_seq(sorted_items(misc.map_values(|m: MiscItem| misc_key(m))), ","@)
}

/// The first skin chosen for the champion.
pub fn first_skin_for_exec(skins: &Vec<SkinData>, cid: u32) -> (r: Option<&SkinData>)
    ensures
        match r {
            Some(s) => first_skin_for(skins@, cid) == Some(*s),
            None => first_skin_for(skins@, cid) is None,
        },
{
    let mut i: usize = 0;
    proof {
        assert(skins@.skip(0) =~= skins@);
    }
    while i < skins.len()
        invariant
            0 <= i <= skins.len(),
            first_skin_for(skins@, cid) == first_skin_for(skins@.skip(i as int), cid),
        decreases skins.len() - i,
    {
        proof {
            assert(skins@.skip(i as int).drop_first() =~= skins@.skip(i as int + 1));
            assert(skins@.skip(i as int)[0] == skins@[i as int]);
        }
        if skins[i].champion_id == cid {
            return Some(&skins[i]);
        }
        i = i + 1;
    }
    None
}

/// The first custom skin chosen for the champion.
pub fn first_custom_for_exec(customs: &Vec<CustomSkinData>, cid: u32) -> (r: Option<&CustomSkinData>)
    ensures
        match r {
            Some(s) => first_custom_for(customs@, cid) == Some(*s),
            None => first_custom_for(customs@, cid) is None,
        },
{
    let mut i: usize = 0;
    proof {
        assert(customs@.skip(0) =~= customs@);
    }
    while i < customs.len()
        invariant
            0 <= i <= customs.len(),
            first_custom_for(customs@, cid) == first_custom_for(customs@.skip(i as int), cid),
        decreases customs.len() - i,
    {
        proof {
            assert(customs@.skip(i as int).drop_first() =~= customs@.skip(i as int + 1));
            assert(customs@.skip(i as int)[0] == customs@[i as int]);
        }
        if customs[i].champion_id == cid {
            return Some(&customs[i]);
        }
        i = i + 1;
    }
    None
}

fn selection_part_exec(config: &SavedConfig, cid: u32) -> (r: String)
    ensures
        r@ == selection_part(*config, cid),
{
    let mut out = String::new();
    write_dec(&mut out, cid as u64);
    match first_skin_for_exec(&config.skins, cid) {
        Some(s) => {
            push_str(&mut out, ":skin:");
            write_dec(&mut out, s.skin_id as u64);
            push_str(&mut out, ":");
            let chroma: u32 = match s.chroma_id {
                Some(c) => c,
                None => 0,
            };
            write_dec(&mut out, chroma as u64);
            push_str(&mut out, ":");
            match &s.skin_file {
                Some(f) => push_str(&mut out, f.as_str()),
                None => {},
            }
            assert(out@ =~= selection_part(*config, cid));
        },
        None => {
            match first_custom_for_exec(&config.custom_skins, cid) {
                Some(c) => {
                    push_str(&mut out, ":custom:");
                    push_str(&mut out, c.file_path.as_str());
                },
                None => {
                    push_str(&mut out, ":none");
                },
            }
            assert(out@ =~= selection_part(*config, cid));
        },
    }
    out
}

/// Computes the instant-assign signature of a champion set, the saved choices and
/// the selected miscellaneous items.
pub fn compute_instant_assign_signature(
    champion_ids: &Vec<u32>,
    config: &SavedConfig,
    misc_items: &Vec<MiscItem>,
) -> (sig: String)
    ensures
        sig@ == instant_assign_signature(champion_ids@, *config, misc_items@),
{
    let champs = sorted_distinct(champion_ids);
    let mut champ_strs: Vec<String> = Vec::new();
    let mut selections: Vec<String> = Vec::new();
    let mut i: usize = 0;
    while i < champs.len()
        invariant
            0 <= i <= champs.len(),
            views(champ_strs@) == champs@.take(i as int).map_values(|c: u32| dec(c as nat)),
            views(selections@) == champs@.take(i as int).map_values(|c: u32| selection_part(*config, c)),
        decreases champs.len() - i,
    {
        let c = champs[i];
        let ghost old_strs = champ_strs@;
        let ghost old_sels = selections@;
        champ_strs.push(u64_to_string(c as u64));
        selections.push(selection_part_exec(config, c));
        proof {
            assert(champs@.take(i as int + 1) =~= champs@.take(i as int).push(c));
            assert(views(champ_strs@) =~= views(old_strs).push(dec(c as nat)));
            assert(views(selections@) =~= views(old_sels).push(selection_part(*config, c)));
            assert(views(champ_strs@) =~= champs@.take(i as int + 1).map_values(|c: u32| dec(c as nat)));
            assert(views(selections@) =~= champs@.take(i as int + 1).map_values(|c: u32| selection_part(*config, c)));
        }
        i = i + 1;
    }
    proof {
        assert(champs@.take(i as int) =~= champs@);
    }
    let mut keys: Vec<String> = Vec::new();
    let mut j: usize = 0;
    while j < misc_items.len()
        invariant
            0 <= j <= misc_items.len(),
            views(keys@) == misc_items@.take(j as int).map_values(|m: MiscItem| misc_key(m)),
        decreases misc_items.len() - j,
    {
        let m = &misc_items[j];
        let mut k = String::new();
        push_str(&mut k, m.item_type.as_str());
        push_str(&mut k, ":");
        push_str(&mut k, m.id.as_str());
        let ghost old_keys = keys@;
        keys.push(k);
        proof {
            assert(misc_items@.take(j as int + 1) =~= misc_items@.take(j as int).push(misc_items@[j as int]));
            assert(views(keys@) =~= views(old_keys).push(misc_key(misc_items@[j as int])));
            assert(views(keys@) =~= misc_items@.take(j as int + 1).map_values(|m: MiscItem| misc_key(m)));
        }
        j = j + 1;
    }
    proof {
        assert(misc_items@.take(j as int) =~= misc_items@);
    }
    let sorted_sel = sort_strings_views(selections);
    let sorted_keys = sort_strings_views(keys);
    let mut sig = String::new();
    push_str(&mut sig, "champs:");
    let a = join(&champ_strs, ",");
    push_str(&mut sig, a.as_str());
    push_str(&mut sig, "|selections:");
    let b = join(&sorted_sel, "|");
    push_str(&mut sig, b.as_str());
    push_str(&mut sig, "|misc:");
    let c = join(&sorted_keys, ",");
    push_str(&mut sig, c.as_str());
    sig
}

} // verus!
