//! Which skins a party-mode injection hands to the injector: the local
//! player's choices and the friends' skins whose files were found, each
//! combination once.
use vstd::prelude::*;
use crate::config::{SavedConfig, SkinData, CustomSkinData};
use crate::flow::{Skin, opt_view, skin_from_data};
use crate::signature::{first_skin_for, first_custom_for, first_skin_for_exec, first_custom_for_exec};

verus! {

impl Clone for Skin {
    fn clone(&self) -> (r: Self)
        ensures
            r == *self,
    {
        Skin {
            champion_id: self.champion_id,
            skin_id: self.skin_id,
            chroma_id: self.chroma_id,
            skin_file_path: match &self.skin_file_path {
                Some(p) => Some(p.clone()),
                None => None,
            },
        }
    }
}

/// What identifies an injected skin: champion, skin, chroma, file and the friend it came from.
pub open spec fn skin_key(s: Skin, friend: Option<String>) -> (u32, u32, Option<u32>, Option<Seq<char>>, Option<Seq<char>>) {
    (s.champion_id, s.skin_id, s.chroma_id, opt_view(s.skin_file_path), opt_view(friend))
}

/// Whether an entry before position `n` has the same identity as entry `n`.
pub open spec fn seen_before(entries: Seq<(Skin, Option<String>)>, n: int) -> bool {
    exists|k: int| 0 <= k < n && skin_key((#[trigger] entries[k]).0, entries[k].1) == skin_key(entries[n].0, entries[n].1)
}

/// The skins of `entries`, each identity once, first occurrence kept, in order.
pub open spec fn dedup_skins_of(entries: Seq<(Skin, Option<String>)>) -> Seq<Skin>
    decreases entries.len(),
{
    if entries.len() == 0 {
        seq![]
    } else if seen_before(entries, entries.len() - 1) {
        dedup_skins_of(entries.drop_last())
    } else {
        dedup_skins_of(entries.drop_last()).push(entries.last().0)
    }
}

fn opt_string_eq(a: &Option<String>, b: &Option<String>) -> (r: bool)
    ensures
        r == (opt_view(*a) == opt_view(*b)),
{
    match (a, b) {
        (Some(x), Some(y)) => crate::text::str_eq(x.as_str(), y.as_str()),
        (None, None) => true,
        _ => false,
    }
}

fn same_key(a: &(Skin, Option<String>), b: &(Skin, Option<String>)) -> (r: bool)
    ensures
        r == (skin_key(a.0, a.1) == skin_key(b.0, b.1)),
{
    a.0.champion_id == b.0.champion_id && a.0.skin_id == b.0.skin_id && a.0.chroma_id == b.0.chroma_id
        && opt_string_eq(&a.0.skin_file_path, &b.0.skin_file_path) && opt_string_eq(&a.1, &b.1)
}

/// Drops repeated skins, keeping separate entries per friend.
pub fn dedup_skins(entries: &Vec<(Skin, Option<String>)>) -> (r: Vec<Skin>)
    ensures
        r@ == dedup_skins_of(entries@),
{
    let mut out: Vec<Skin> = Vec::new();
    let mut i: usize = 0;
    while i < entries.len()
        invariant
            0 <= i <= entries.len(),
            out@ == dedup_skins_of(entries@.take(i as int)),
        decreases entries.len() - i,
    {
        let mut j: usize = 0;
        while j < i && !same_key(&entries[j], &entries[i])
            invariant
                0 <= j <= i,
                i < entries.len(),
                forall|k: int| 0 <= k < j ==> skin_key(entries@[k].0, entries@[k].1) != skin_key(entries@[i as int].0, entries@[i as int].1),
            decreases i - j,
        {
            j = j + 1;
        }
        let seen = j < i;
        let ghost t = entries@.take(i as int + 1);
        proof {
            assert(t.drop_last() =~= entries@.take(i as int));
            assert(t.last() == entries@[i as int]);
            assert forall|k: int| 0 <= k < i implies t[k] == entries@[k] by {}
            if seen {
                assert(skin_key(t[j as int].0, t[j as int].1) == skin_key(t[i as int].0, t[i as int].1));
                assert(seen_before(t, i as int));
            } else {
                assert(j == i);
                assert(!seen_before(t, i as int));
            }
        }
        if !seen {
            out.push(entries[i].0.clone());
        }
        i = i + 1;
    }
    proof {
        assert(entries@.take(i as int) =~= entries@);
    }
    out
}

/// A custom skin in the injector's form (no skin id, no chroma).
pub open spec fn skin_from_custom(c: CustomSkinData) -> Skin {
    Skin { champion_id: c.champion_id, skin_id: 0, chroma_id: None, skin_file_path: Some(c.file_path) }
}

/// The local choice for a champion: the chosen skin, else the chosen custom skin.
pub open spec fn local_choice_for(config: SavedConfig, cid: u32) -> Option<Skin> {
    match first_skin_for(config.skins@, cid) {
        Some(s) => Some(skin_from_data(s)),
        None => match first_custom_for(config.custom_skins@, cid) {
            Some(c) => Some(skin_from_custom(c)),
            None => None,
        },
    }
}

/// The local choices for the champions, in the champions' order, where there is one.
pub open spec fn local_choices(config: SavedConfig, champs: Seq<u32>) -> Seq<Skin>
    decreases champs.len(),
{
    if champs.len() == 0 {
        seq![]
    } else {
        let prev = local_choices(config, champs.drop_last());
        match local_choice_for(config, champs.last()) {
            Some(s) => prev.push(s),
            None => prev,
        }
    }
}

fn skin_of_data(s: &SkinData) -> (r: Skin)
    ensures
        r == skin_from_data(*s),
{
    Skin {
        champion_id: s.champion_id,
        skin_id: s.skin_id,
        chroma_id: s.chroma_id,
        skin_file_path: match &s.skin_file {
            Some(f) => Some(f.clone()),
            None => None,
        },
    }
}

/// The local choices for the champions of an instant-assign queue.
pub fn local_skins_for_champions(config: &SavedConfig, champs: &Vec<u32>) -> (r: Vec<Skin>)
    ensures
        r@ == local_choices(*config, champs@),
{
    let mut out: Vec<Skin> = Vec::new();
    let mut i: usize = 0;
    while i < champs.len()
        invariant
            0 <= i <= champs.len(),
            out@ == local_choices(*config, champs@.take(i as int)),
        decreases champs.len() - i,
    {
        let cid = champs[i];
        proof {
            assert(champs@.take(i as int + 1).drop_last() =~= champs@.take(i as int));
            assert(champs@.take(i as int + 1).last() == cid);
        }
        match first_skin_for_exec(&config.skins, cid) {
            Some(s) => {
                out.push(skin_of_data(s));
            },
            None => {
                match first_custom_for_exec(&config.custom_skins, cid) {
                    Some(c) => {
                        out.push(Skin { champion_id: c.champion_id, skin_id: 0, chroma_id: None, skin_file_path: Some(c.file_path.clone()) });
                    },
                    None => {},
                }
            },
        }
        i = i + 1;
    }
    proof {
        assert(champs@.take(i as int) =~= champs@);
    }
    out
}

/// The local player's own entries (no friend) followed by the friends' entries.
pub open spec fn with_sources(local: Seq<Skin>, friends: Seq<(Skin, String)>) -> Seq<(Skin, Option<String>)> {
    local.map_values(|s: Skin| (s, None::<String>)) + friends.map_values(|e: (Skin, String)| (e.0, Some(e.1)))
}

fn tag_sources(local: &Vec<Skin>, friends: &Vec<(Skin, String)>) -> (r: Vec<(Skin, Option<String>)>)
    ensures
        r@ == with_sources(local@, friends@),
{
    let mut out: Vec<(Skin, Option<String>)> = Vec::new();
    let mut i: usize = 0;
    while i < local.len()
        invariant
            0 <= i <= local.len(),
            out@ == local@.take(i as int).map_values(|s: Skin| (s, None::<String>)),
        decreases local.len() - i,
    {
        out.push((local[i].clone(), None));
        proof {
            assert(local@.take(i as int + 1) =~= local@.take(i as int).push(local@[i as int]));
            assert(out@ =~= local@.take(i as int + 1).map_values(|s: Skin| (s, None::<String>)));
        }
        i = i + 1;
    }
    proof {
        assert(local@.take(i as int) =~= local@);
    }
    let ghost base = out@;
    let mut j: usize = 0;
    while j < friends.len()
        invariant
            0 <= j <= friends.len(),
            base == local@.map_values(|s: Skin| (s, None::<String>)),
            out@ == base + friends@.take(j as int).map_values(|e: (Skin, String)| (e.0, Some(e.1))),
        decreases friends.len() - j,
    {
        out.push((friends[j].0.clone(), Some(friends[j].1.clone())));
        proof {
            assert(friends@.take(j as int + 1) =~= friends@.take(j as int).push(friends@[j as int]));
            assert(out@ =~= base + friends@.take(j as int + 1).map_values(|e: (Skin, String)| (e.0, Some(e.1))));
        }
        j = j + 1;
    }
    proof {
        assert(friends@.take(j as int) =~= friends@);
    }
    out
}

/// The skins of a party-mode injection for the locked champion: the local skin
/// chosen for it (none for champion 0), then the friends' skins whose files were
/// found (with the friend who shared each), repeats dropped.
pub open spec fn party_injection_skins_of(config: SavedConfig, champion_id: u32, friends: Seq<(Skin, String)>) -> Seq<Skin> {
    let local: Seq<Skin> = if champion_id != 0 {
        match first_skin_for(config.skins@, champion_id) {
            Some(s) => seq![skin_from_data(s)],
            None => seq![],
        }
    } else {
        seq![]
    };
    dedup_skins_of(with_sources(local, friends))
}

/// Assembles the skins of a party-mode injection for the locked champion.
pub fn party_injection_skins(config: &SavedConfig, champion_id: u32, friends: &Vec<(Skin, String)>) -> (r: Vec<Skin>)
    ensures
        r@ == party_injection_skins_of(*config, champion_id, friends@),
{
    let mut local: Vec<Skin> = Vec::new();
    if champion_id != 0 {
        if let Some(s) = first_skin_for_exec(&config.skins, champion_id) {
            local.push(skin_of_data(s));
        }
    }
    proof {
        let expected: Seq<Skin> = if champion_id != 0 {
            match first_skin_for(config.skins@, champion_id) {
                Some(s) => seq![skin_from_data(s)],
                None => seq![],
            }
        } else {
            seq![]
        };
        assert(local@ =~= expected);
    }
    let tagged = tag_sources(&local, friends);
    dedup_skins(&tagged)
}

/// The skins of a multi-champion injection: the local choice for each champion,
/// then the friends' skins whose files were found, repeats dropped.
pub open spec fn party_injection_skins_for_champions_of(config: SavedConfig, champs: Seq<u32>, friends: Seq<(Skin, String)>) -> Seq<Skin> {
    dedup_skins_of(with_sources(local_choices(config, champs), friends))
}

/// Assembles the skins of a multi-champion injection.
pub fn party_injection_skins_for_champions(config: &SavedConfig, champs: &Vec<u32>, friends: &Vec<(Skin, String)>) -> (r: Vec<Skin>)
    ensures
        r@ == party_injection_skins_for_champions_of(*config, champs@, friends@),
{
    let local = local_skins_for_champions(config, champs);
    let tagged = tag_sources(&local, friends);
    dedup_skins(&tagged)
}

} // verus!
