//! The saved configuration: skin selections, custom skins, party-mode
//! friends and the edits the settings commands make to it.
use vstd::prelude::*;
use crate::text::str_eq;

verus! {

/// A skin chosen for a champion.
#[derive(Debug, PartialEq)]
pub struct SkinData {
    pub champion_id: u32,
    pub skin_id: u32,
    pub chroma_id: Option<u32>,
    /// The skin archive, relative to the champions folder or absolute.
    pub skin_file: Option<String>,
}

impl Clone for SkinData {
    fn clone(&self) -> (r: Self)
        ensures
            r == *self,
    {
        SkinData {
            champion_id: self.champion_id,
            skin_id: self.skin_id,
            chroma_id: self.chroma_id,
            skin_file: match &self.skin_file {
                Some(f) => Some(f.clone()),
                None => None,
            },
        }
    }
}

/// A skin archive imported by the user.
#[derive(Debug, PartialEq)]
pub struct CustomSkinData {
    pub id: String,
    pub name: String,
    pub champion_id: u32,
    pub file_path: String,
    pub created_at: u64,
}

/// Interface appearance preferences.
#[derive(Debug, PartialEq)]
pub struct ThemePreferences {
    pub tone: Option<String>,
    pub is_dark: Option<bool>,
}

/// A friend skins are exchanged with.
#[derive(Debug, PartialEq)]
pub struct PairedFriend {
    pub summoner_id: String,
    pub summoner_name: String,
    pub display_name: String,
    pub paired_at: u64,
    pub share_enabled: bool,
}

impl Clone for PairedFriend {
    fn clone(&self) -> (r: Self)
        ensures
            r == *self,
    {
        PairedFriend {
            summoner_id: self.summoner_id.clone(),
            summoner_name: self.summoner_name.clone(),
            display_name: self.display_name.clone(),
            paired_at: self.paired_at,
            share_enabled: self.share_enabled,
        }
    }
}

/// Party-mode settings.
#[derive(Debug, PartialEq)]
pub struct PartyModeConfig {
    pub paired_friends: Vec<PairedFriend>,
    pub notifications: bool,
    pub verbose_logging: bool,
}

/// The whole saved configuration.
#[derive(Debug, PartialEq)]
pub struct SavedConfig {
    pub league_path: Option<String>,
    pub skins: Vec<SkinData>,
    pub custom_skins: Vec<CustomSkinData>,
    pub favorites: Vec<u32>,
    pub theme: Option<ThemePreferences>,
    pub party_mode: PartyModeConfig,
    /// Selected miscellaneous items, by item type.
    pub selected_misc_items: Vec<(String, Vec<String>)>,
    pub auto_update_data: bool,
    pub last_data_commit: Option<String>,
}

impl Default for PartyModeConfig {
    fn default() -> (r: Self)
        ensures
            r.paired_friends@.len() == 0,
            r.notifications,
            !r.verbose_logging,
    {
        PartyModeConfig { paired_friends: Vec::new(), notifications: true, verbose_logging: false }
    }
}

impl Default for SavedConfig {
    /// The configuration used where none is saved yet.
    fn default() -> (r: Self)
        ensures
            r.league_path is None,
            r.skins@.len() == 0,
            r.custom_skins@.len() == 0,
            r.favorites@.len() == 0,
            r.theme is None,
            r.party_mode.paired_friends@.len() == 0,
            r.party_mode.notifications,
            !r.party_mode.verbose_logging,
            r.selected_misc_items@.len() == 0,
            r.auto_update_data,
            r.last_data_commit is None,
    {
        SavedConfig {
            league_path: None,
            skins: Vec::new(),
            custom_skins: Vec::new(),
            favorites: Vec::new(),
            theme: None,
            party_mode: PartyModeConfig::default(),
            selected_misc_items: Vec::new(),
            auto_update_data: true,
            last_data_commit: None,
        }
    }
}

/// The skins not chosen for `champ`, in order.
pub open spec fn skins_without(s: Seq<SkinData>, champ: u32) -> Seq<SkinData>
    decreases s.len(),
{
    if s.len() == 0 {
        s
    } else if s.last().champion_id != champ {
        skins_without(s.drop_last(), champ).push(s.last())
    } else {
        skins_without(s.drop_last(), champ)
    }
}

/// The custom skins not chosen for `champ`, in order.
pub open spec fn customs_without_champion(s: Seq<CustomSkinData>, champ: u32) -> Seq<CustomSkinData>
    decreases s.len(),
{
    if s.len() == 0 {
        s
    } else if s.last().champion_id != champ {
        customs_without_champion(s.drop_last(), champ).push(s.last())
    } else {
        customs_without_champion(s.drop_last(), champ)
    }
}

/// The custom skins whose id is not `id`, in order.
pub open spec fn customs_without_id(s: Seq<CustomSkinData>, id: Seq<char>) -> Seq<CustomSkinData>
    decreases s.len(),
{
    if s.len() == 0 {
        s
    } else if s.last().id@ != id {
        customs_without_id(s.drop_last(), id).push(s.last())
    } else {
        customs_without_id(s.drop_last(), id)
    }
}

/// The paired friends whose summoner id is not `id`, in order.
pub open spec fn friends_without(s: Seq<PairedFriend>, id: Seq<char>) -> Seq<PairedFriend>
    decreases s.len(),
{
    if s.len() == 0 {
        s
    } else if s.last().summoner_id@ != id {
        friends_without(s.drop_last(), id).push(s.last())
    } else {
        friends_without(s.drop_last(), id)
    }
}

fn retain_skins_not_for(v: &mut Vec<SkinData>, champ: u32)
    ensures
        final(v)@ == skins_without(old(v)@, champ),
{
    let mut out: Vec<SkinData> = Vec::new();
    let ghost orig = v@;
    while v.len() > 0
        invariant
            skins_without(orig, champ) == skins_without(v@, champ) + out@.reverse(),
        decreases v.len(),
    {
        let ghost before = v@;
        let x = v.pop().unwrap();
        proof {
            assert(before.drop_last() == v@);
            assert(before.last() == x);
        }
        if x.champion_id != champ {
            out.push(x);
        }
        proof {
            assert(skins_without(orig, champ) == skins_without(v@, champ) + out@.reverse()) by {
                if before.last().champion_id != champ {
                    assert(out@.reverse() =~= seq![x] + out@.drop_last().reverse());
                    assert(skins_without(v@, champ).push(x) + out@.drop_last().reverse()
                        =~= skins_without(v@, champ) + out@.reverse());
                }
            }
        }
    }
    while out.len() > 0
        invariant
            skins_without(orig, champ) == v@ + out@.reverse(),
        decreases out.len(),
    {
        let ghost before = out@;
        let x = out.pop().unwrap();
        v.push(x);
        proof {
            assert(before.reverse() =~= seq![x] + out@.reverse());
            assert(v@ + out@.reverse() =~= v@.drop_last() + before.reverse());
        }
    }
    proof {
        assert(v@ + out@.reverse() =~= v@);
    }
}

fn retain_customs_not_for(v: &mut Vec<CustomSkinData>, champ: u32)
    ensures
        final(v)@ == customs_without_champion(old(v)@, champ),
{
    let mut out: Vec<CustomSkinData> = Vec::new();
    let ghost orig = v@;
    while v.len() > 0
        invariant
            customs_without_champion(orig, champ) == customs_without_champion(v@, champ) + out@.reverse(),
        decreases v.len(),
    {
        let ghost before = v@;
        let x = v.pop().unwrap();
        proof {
            assert(before.drop_last() == v@);
            assert(before.last() == x);
        }
        if x.champion_id != champ {
            out.push(x);
        }
        proof {
            assert(customs_without_champion(orig, champ) == customs_without_champion(v@, champ) + out@.reverse()) by {
                if before.last().champion_id != champ {
                    assert(out@.reverse() =~= seq![x] + out@.drop_last().reverse());
                    assert(customs_without_champion(v@, champ).push(x) + out@.drop_last().reverse()
                        =~= customs_without_champion(v@, champ) + out@.reverse());
                }
            }
        }
    }
    while out.len() > 0
        invariant
            customs_without_champion(orig, champ) == v@ + out@.reverse(),
        decreases out.len(),
    {
        let ghost before = out@;
        let x = out.pop().unwrap();
        v.push(x);
        proof {
            assert(before.reverse() =~= seq![x] + out@.reverse());
            assert(v@ + out@.reverse() =~= v@.drop_last() + before.reverse());
        }
    }
    proof {
        assert(v@ + out@.reverse() =~= v@);
    }
}

fn retain_customs_not_id(v: &mut Vec<CustomSkinData>, champ: &str)
    ensures
        final(v)@ == customs_without_id(old(v)@, champ@),
{
    let mut out: Vec<CustomSkinData> = Vec::new();
    let ghost orig = v@;
    while v.len() > 0
        invariant
            customs_without_id(orig, champ@) == customs_without_id(v@, champ@) + out@.reverse(),
        decreases v.len(),
    {
        let ghost before = v@;
        let x = v.pop().unwrap();
        proof {
            assert(before.drop_last() == v@);
            assert(before.last() == x);
        }
        if !str_eq(x.id.as_str(), champ) {
            out.push(x);
        }
        proof {
            assert(customs_without_id(orig, champ@) == customs_without_id(v@, champ@) + out@.reverse()) by {
                if before.last().id@ != champ@ {
                    assert(out@.reverse() =~= seq![x] + out@.drop_last().reverse());
                    assert(customs_without_id(v@, champ@).push(x) + out@.drop_last().reverse()
                        =~= customs_without_id(v@, champ@) + out@.reverse());
                }
            }
        }
    }
    while out.len() > 0
        invariant
            customs_without_id(orig, champ@) == v@ + out@.reverse(),
        decreases out.len(),
    {
        let ghost before = out@;
        let x = out.pop().unwrap();
        v.push(x);
        proof {
            assert(before.reverse() =~= seq![x] + out@.reverse());
            assert(v@ + out@.reverse() =~= v@.drop_last() + before.reverse());
        }
    }
    proof {
        assert(v@ + out@.reverse() =~= v@);
    }
}

fn retain_friends_not_id(v: &mut Vec<PairedFriend>, champ: &str)
    ensures
        final(v)@ == friends_without(old(v)@, champ@),
{
    let mut out: Vec<PairedFriend> = Vec::new();
    let ghost orig = v@;
    while v.len() > 0
        invariant
            friends_without(orig, champ@) == friends_without(v@, champ@) + out@.reverse(),
        decreases v.len(),
    {
        let ghost before = v@;
        let x = v.pop().unwrap();
        proof {
            assert(before.drop_last() == v@);
            assert(before.last() == x);
        }
        if !str_eq(x.summoner_id.as_str(), champ) {
            out.push(x);
        }
        proof {
            assert(friends_without(orig, champ@) == friends_without(v@, champ@) + out@.reverse()) by {
                if before.last().summoner_id@ != champ@ {
                    assert(out@.reverse() =~= seq![x] + out@.drop_last().reverse());
                    assert(friends_without(v@, champ@).push(x) + out@.drop_last().reverse()
                        =~= friends_without(v@, champ@) + out@.reverse());
                }
            }
        }
    }
    while out.len() > 0
        invariant
            friends_without(orig, champ@) == v@ + out@.reverse(),
        decreases out.len(),
    {
        let ghost before = out@;
        let x = out.pop().unwrap();
        v.push(x);
        proof {
            assert(before.reverse() =~= seq![x] + out@.reverse());
            assert(v@ + out@.reverse() =~= v@.drop_last() + before.reverse());
        }
    }
    proof {
        assert(v@ + out@.reverse() =~= v@);
    }
}


/// Whether a given official skin is a choice for the champion.
pub open spec fn official_pick(skin_data: Option<SkinData>, champion_id: u32) -> bool {
    skin_data matches Some(s) && s.champion_id == champion_id
}

/// Chooses the skin of a champion: every earlier choice for the champion, official
/// or custom, is dropped, then the given official skin is added when it is for
/// that champion, or else the given custom skin when it is. The champion ends
/// with one choice at most.
pub fn select_skin_for_champion(
    config: &mut SavedConfig,
    champion_id: u32,
    skin_data: Option<SkinData>,
    custom_skin_data: Option<CustomSkinData>,
)
    ensures
        final(config).skins@ == skins_without(old(config).skins@, champion_id) + match skin_data {
            Some(s) => if s.champion_id == champion_id { seq![s] } else { seq![] },
            None => seq![],
        },
        final(config).custom_skins@ == customs_without_champion(old(config).custom_skins@, champion_id) + match custom_skin_data {
            Some(c) => if c.champion_id == champion_id && !official_pick(skin_data, champion_id) { seq![c] } else { seq![] },
            None => seq![],
        },
        *final(config) == (SavedConfig { skins: final(config).skins, custom_skins: final(config).custom_skins, ..*old(config) }),
{
    retain_skins_not_for(&mut config.skins, champion_id);
    retain_customs_not_for(&mut config.custom_skins, champion_id);
    let ghost skins_mid = config.skins@;
    let ghost customs_mid = config.custom_skins@;
    let mut picked = false;
    if let Some(skin) = skin_data {
        if skin.champion_id == champion_id {
            config.skins.push(skin);
            picked = true;
        }
    }
    if let Some(custom) = custom_skin_data {
        if custom.champion_id == champion_id && !picked {
            config.custom_skins.push(custom);
        }
    }
    assert(config.skins@ =~= skins_mid + match skin_data {
        Some(s) => if s.champion_id == champion_id { seq![s] } else { seq![] },
        None => seq![],
    });
    assert(config.custom_skins@ =~= customs_mid + match custom_skin_data {
        Some(c) => if c.champion_id == champion_id && !official_pick(skin_data, champion_id) { seq![c] } else { seq![] },
        None => seq![],
    });
}

/// Drops every skin choice, official or custom, of a champion.
pub fn remove_skin_for_champion(config: &mut SavedConfig, champion_id: u32)
    ensures
        final(config).skins@ == skins_without(old(config).skins@, champion_id),
        final(config).custom_skins@ == customs_without_champion(old(config).custom_skins@, champion_id),
        *final(config) == (SavedConfig { skins: final(config).skins, custom_skins: final(config).custom_skins, ..*old(config) }),
{
    retain_skins_not_for(&mut config.skins, champion_id);
    retain_customs_not_for(&mut config.custom_skins, champion_id);
}

/// Adds a custom skin, replacing the one with the same id.
pub fn save_custom_skin(config: &mut SavedConfig, custom_skin: CustomSkinData)
    ensures
        final(config).custom_skins@ == customs_without_id(old(config).custom_skins@, custom_skin.id@).push(custom_skin),
        *final(config) == (SavedConfig { custom_skins: final(config).custom_skins, ..*old(config) }),
{
    retain_customs_not_id(&mut config.custom_skins, custom_skin.id.as_str());
    config.custom_skins.push(custom_skin);
}

/// Unpairs a friend.
pub fn remove_paired_friend(config: &mut SavedConfig, friend_summoner_id: &str)
    ensures
        final(config).party_mode.paired_friends@ == friends_without(old(config).party_mode.paired_friends@, friend_summoner_id@),
        *final(config) == (SavedConfig {
            party_mode: PartyModeConfig { paired_friends: final(config).party_mode.paired_friends, ..old(config).party_mode },
            ..*old(config)
        }),
{
    retain_friends_not_id(&mut config.party_mode.paired_friends, friend_summoner_id);
}

/// Whether a friend with this summoner id is paired.
pub open spec fn is_paired(friends: Seq<PairedFriend>, id: Seq<char>) -> bool {
    exists|i: int| 0 <= i < friends.len() && (#[trigger] friends[i]).summoner_id@ == id
}

/// The paired friends after pairing `f`: unchanged where a friend with its
/// summoner id is already paired, else `f` appended.
pub open spec fn paired_with(friends: Seq<PairedFriend>, f: PairedFriend) -> Seq<PairedFriend> {
    if is_paired(friends, f.summoner_id@) { friends } else { friends.push(f) }
}

fn is_paired_exec(friends: &Vec<PairedFriend>, id: &str) -> (r: bool)
    ensures
        r == is_paired(friends@, id@),
{
    let mut i: usize = 0;
    while i < friends.len()
        invariant
            0 <= i <= friends.len(),
            forall|k: int| 0 <= k < i ==> (#[trigger] friends@[k]).summoner_id@ != id@,
        decreases friends.len() - i,
    {
        if str_eq(friends[i].summoner_id.as_str(), id) {
            return true;
        }
        i = i + 1;
    }
    false
}

/// Pairs a friend unless already paired; says whether the list changed.
pub fn add_paired_friend(config: &mut SavedConfig, friend: PairedFriend) -> (added: bool)
    ensures
        added == !is_paired(old(config).party_mode.paired_friends@, friend.summoner_id@),
        final(config).party_mode.paired_friends@ == paired_with(old(config).party_mode.paired_friends@, friend),
        *final(config) == (SavedConfig {
            party_mode: PartyModeConfig { paired_friends: final(config).party_mode.paired_friends, ..old(config).party_mode },
            ..*old(config)
        }),
{
    if is_paired_exec(&config.party_mode.paired_friends, friend.summoner_id.as_str()) {
        false
    } else {
        config.party_mode.paired_friends.push(friend);
        true
    }
}

/// Sets the party-mode notification preference.
pub fn update_party_mode_settings(config: &mut SavedConfig, notifications: bool)
    ensures
        *final(config) == (SavedConfig {
            party_mode: PartyModeConfig { notifications, ..old(config).party_mode },
            ..*old(config)
        }),
{
    config.party_mode.notifications = notifications;
}

/// `std::sync::Mutex`, held opaquely.
#[verifier::external_type_specification]
#[verifier::external_body]
#[verifier::reject_recursive_types(T)]
pub struct ExMutex<T: ?Sized>(std::sync::Mutex<T>);

/// A new unlocked lock, through `Mutex::new`.
#[verifier::external_body]
fn new_unit_mutex() -> std::sync::Mutex<()> {
    std::sync::Mutex::new(())
}

/// Serializes the commands that rewrite the configuration file.
pub struct ConfigLock(pub std::sync::Mutex<()>);

impl ConfigLock {
    /// A new, unlocked configuration lock.
    pub fn new() -> Self {
        ConfigLock(new_unit_mutex())
    }
}

} // verus!
