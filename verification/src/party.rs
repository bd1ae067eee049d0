//! Party mode: skins shared by friends during champion select, the rule for
//! when to inject them, and the chat plumbing decisions.
use vstd::prelude::*;
use crate::text::{dec, push_char, write_dec, str_eq, push_str};
use crate::config::{SavedConfig, PairedFriend};

verus! {

/// A skin a friend shared during the current champion select.
#[derive(Debug, PartialEq)]
pub struct InMemoryReceivedSkin {
    pub from_summoner_id: String,
    pub from_summoner_name: String,
    pub champion_id: u32,
    pub skin_id: u32,
    pub chroma_id: Option<u32>,
    pub fantome_path: Option<String>,
    pub received_at: u64,
}

impl Clone for InMemoryReceivedSkin {
    fn clone(&self) -> (r: Self)
        ensures
            r == *self,
    {
        InMemoryReceivedSkin {
            from_summoner_id: self.from_summoner_id.clone(),
            from_summoner_name: self.from_summoner_name.clone(),
            champion_id: self.champion_id,
            skin_id: self.skin_id,
            chroma_id: self.chroma_id,
            fantome_path: match &self.fantome_path {
                Some(p) => Some(p.clone()),
                None => None,
            },
            received_at: self.received_at,
        }
    }
}

/// The key under which a friend's skin for a champion is kept: `"{id}_{champion}"`.
pub open spec fn received_key(from_summoner_id: Seq<char>, champion_id: u32) -> Seq<char> {
    from_summoner_id + seq!['_'] + dec(champion_id as nat)
}

/// Builds the key under which a friend's skin for a champion is kept.
pub fn received_skin_key(from_summoner_id: &str, champion_id: u32) -> (k: String)
    ensures
        k@ == received_key(from_summoner_id@, champion_id),
{
    let mut k = String::new();
    push_str(&mut k, from_summoner_id);
    push_char(&mut k, '_');
    write_dec(&mut k, champion_id as u64);
    assert(k@ =~= received_key(from_summoner_id@, champion_id));
    k
}

/// The value stored under key `k`, the first entry with that key.
pub open spec fn received_lookup(s: Seq<(Seq<char>, InMemoryReceivedSkin)>, k: Seq<char>) -> Option<InMemoryReceivedSkin>
    decreases s.len(),
{
    if s.len() == 0 {
        None
    } else if s[0].0 == k {
        Some(s[0].1)
    } else {
        received_lookup(s.drop_first(), k)
    }
}

/// No key occurs twice.
pub open spec fn keys_distinct(s: Seq<(Seq<char>, InMemoryReceivedSkin)>) -> bool {
    forall|i: int, j: int| 0 <= i < j < s.len() ==> (#[trigger] s[i]).0 != (#[trigger] s[j]).0
}

/// Whether key `k` is stored.
pub open spec fn has_key(s: Seq<(Seq<char>, InMemoryReceivedSkin)>, k: Seq<char>) -> bool {
    exists|i: int| 0 <= i < s.len() && (#[trigger] s[i]).0 == k
}

/// Storing `v` under `k`: the entry with key `k` is replaced in place, or a new
/// entry is added at the end.
pub open spec fn received_insert(
    s: Seq<(Seq<char>, InMemoryReceivedSkin)>,
    k: Seq<char>,
    v: InMemoryReceivedSkin,
) -> Seq<(Seq<char>, InMemoryReceivedSkin)> {
    if has_key(s, k) {
        let i = choose|i: int| 0 <= i < s.len() && (#[trigger] s[i]).0 == k;
        s.update(i, (k, v))
    } else {
        s.push((k, v))
    }
}

proof fn lemma_insert_existing(s: Seq<(Seq<char>, InMemoryReceivedSkin)>, k: Seq<char>, v: InMemoryReceivedSkin, i: int)
    requires
        keys_distinct(s),
        0 <= i < s.len(),
        s[i].0 == k,
    ensures
        received_insert(s, k, v) == s.update(i, (k, v)),
{
    assert(has_key(s, k));
    let c = choose|i: int| 0 <= i < s.len() && (#[trigger] s[i]).0 == k;
    if c != i {
        if c < i {
            assert(s[c].0 != s[i].0);
        } else {
            assert(s[i].0 != s[c].0);
        }
    }
}

proof fn lemma_lookup_at(s: Seq<(Seq<char>, InMemoryReceivedSkin)>, i: int)
    requires
        keys_distinct(s),
        0 <= i < s.len(),
    ensures
        received_lookup(s, s[i].0) == Some(s[i].1),
    decreases s.len(),
{
    if i > 0 {
        assert(s[0].0 != s[i].0);
        assert(s.drop_first()[i - 1] == s[i]);
        lemma_lookup_at(s.drop_first(), i - 1);
    }
}

proof fn lemma_lookup_absent(s: Seq<(Seq<char>, InMemoryReceivedSkin)>, k: Seq<char>)
    requires
        !has_key(s, k),
    ensures
        received_lookup(s, k) is None,
    decreases s.len(),
{
    if s.len() > 0 {
        assert(s[0].0 != k);
        assert forall|i: int| 0 <= i < s.drop_first().len() implies (#[trigger] s.drop_first()[i]).0 != k by {
            assert(s.drop_first()[i] == s[i + 1]);
        }
        lemma_lookup_absent(s.drop_first(), k);
    }
}

proof fn lemma_lookup_some(s: Seq<(Seq<char>, InMemoryReceivedSkin)>, k: Seq<char>)
    requires
        keys_distinct(s),
        received_lookup(s, k) is Some,
    ensures
        has_key(s, k),
        exists|i: int| 0 <= i < s.len() && (#[trigger] s[i]).0 == k && s[i].1 == received_lookup(s, k)->0,
    decreases s.len(),
{
    if s[0].0 != k {
        assert forall|i: int, j: int| 0 <= i < j < s.drop_first().len() implies
            (#[trigger] s.drop_first()[i]).0 != (#[trigger] s.drop_first()[j]).0 by {
            assert(s.drop_first()[i] == s[i + 1]);
            assert(s.drop_first()[j] == s[j + 1]);
        }
        lemma_lookup_some(s.drop_first(), k);
        let i = choose|i: int| 0 <= i < s.drop_first().len() && (#[trigger] s.drop_first()[i]).0 == k
            && s.drop_first()[i].1 == received_lookup(s.drop_first(), k)->0;
        assert(s[i + 1] == s.drop_first()[i]);
    } else {
        assert(s[0].0 == k);
    }
}

/// What a store answers after `v` is stored under `k`: `v` for `k`, and for
/// every other key what it answered before; keys stay distinct.
pub proof fn lemma_received_insert(
    s: Seq<(Seq<char>, InMemoryReceivedSkin)>,
    k: Seq<char>,
    v: InMemoryReceivedSkin,
    other: Seq<char>,
)
    requires
        keys_distinct(s),
    ensures
        keys_distinct(received_insert(s, k, v)),
        received_lookup(received_insert(s, k, v), k) == Some(v),
        other != k ==> received_lookup(received_insert(s, k, v), other) == received_lookup(s, other),
        received_insert(s, k, v).len() == if has_key(s, k) { s.len() } else { s.len() + 1 },
{
    let t = received_insert(s, k, v);
    if has_key(s, k) {
        let i = choose|i: int| 0 <= i < s.len() && (#[trigger] s[i]).0 == k;
        assert(t == s.update(i, (k, v)));
        assert forall|a: int, b: int| 0 <= a < b < t.len() implies (#[trigger] t[a]).0 != (#[trigger] t[b]).0 by {
            if a == i {
                assert(s[b].0 != s[i].0);
            } else if b == i {
                assert(s[a].0 != s[i].0);
            }
        }
        lemma_lookup_at(t, i);
    } else {
        assert forall|a: int, b: int| 0 <= a < b < t.len() implies (#[trigger] t[a]).0 != (#[trigger] t[b]).0 by {
            if b == s.len() {
                assert(t[a] == s[a]);
            }
        }
        lemma_lookup_at(t, s.len() as int);
    }
    if other == k {
    } else if received_lookup(s, other) is Some {
        lemma_lookup_some(s, other);
        let j = choose|j: int| 0 <= j < s.len() && (#[trigger] s[j]).0 == other && s[j].1 == received_lookup(s, other)->0;
        assert(t[j] == s[j]);
        lemma_lookup_at(t, j);
    } else {
        if has_key(t, other) {
            let j = choose|j: int| 0 <= j < t.len() && (#[trigger] t[j]).0 == other;
            if j < s.len() {
                assert(t[j] == s[j] || t[j].0 == k);
                lemma_lookup_at(s, j);
            }
        }
        lemma_lookup_absent(t, other);
    }
}

/// Once a friend's skin share is stored, the injection rule counts that
/// friend as having shared: it no longer waits for them.
pub proof fn lemma_stored_share_counts(s: Seq<(Seq<char>, InMemoryReceivedSkin)>, share: SkinShare)
    requires
        keys_distinct(s),
    ensures
        has_shared(
            received_insert(s, received_key(share.from_summoner_id@, share.champion_id), received_from_share(share)),
            share.from_summoner_id@,
        ),
{
    let k = received_key(share.from_summoner_id@, share.champion_id);
    let v = received_from_share(share);
    let t = received_insert(s, k, v);
    lemma_received_insert(s, k, v, k);
    lemma_lookup_some(t, k);
    let i = choose|i: int| 0 <= i < t.len() && (#[trigger] t[i]).0 == k && t[i].1 == received_lookup(t, k)->0;
    assert(t[i].1.from_summoner_id@ == share.from_summoner_id@);
}

/// The skins friends shared in this champion select, one per friend and champion.
pub struct ReceivedSkins {
    entries: Vec<(String, InMemoryReceivedSkin)>,
}

impl View for ReceivedSkins {
    type V = Seq<(Seq<char>, InMemoryReceivedSkin)>;

    closed spec fn view(&self) -> Seq<(Seq<char>, InMemoryReceivedSkin)> {
        self.entries@.map_values(|e: (String, InMemoryReceivedSkin)| (e.0@, e.1))
    }
}

impl ReceivedSkins {
    #[verifier::type_invariant]
    closed spec fn keys_are_distinct(self) -> bool {
        keys_distinct(self@)
    }

    /// An empty store.
    pub fn new() -> (r: Self)
        ensures
            r@ == Seq::<(Seq<char>, InMemoryReceivedSkin)>::empty(),
            keys_distinct(r@),
    {
        let r = ReceivedSkins { entries: Vec::new() };
        assert(r@ =~= Seq::<(Seq<char>, InMemoryReceivedSkin)>::empty());
        r
    }

    /// Number of friend/champion pairs stored.
    pub fn len(&self) -> (n: usize)
        ensures
            n == self@.len(),
            keys_distinct(self@),
    {
        proof {
            use_type_invariant(self);
        }
        self.entries.len()
    }

    /// The `i`-th stored skin.
    pub fn get(&self, i: usize) -> (r: &InMemoryReceivedSkin)
        requires
            i < self@.len(),
        ensures
            *r == self@[i as int].1,
    {
        &self.entries[i].1
    }

    /// Stores `value` under `key`, replacing what was stored under it.
    pub fn insert(&mut self, key: String, value: InMemoryReceivedSkin)
        ensures
            final(self)@ == received_insert(old(self)@, key@, value),
            keys_distinct(final(self)@),
    {
        proof {
            use_type_invariant(&*self);
        }
        let ghost k = key@;
        let ghost s = self@;
        let mut i: usize = 0;
        while i < self.entries.len()
            invariant
                0 <= i <= self.entries.len(),
                s == self@,
                s == old(self)@,
                k == key@,
                keys_distinct(s),
                forall|j: int| 0 <= j < i ==> (#[trigger] s[j]).0 != k,
            decreases self.entries.len() - i,
        {
            if str_eq(self.entries[i].0.as_str(), key.as_str()) {
                proof {
                    lemma_insert_existing(s, k, value, i as int);
                }
                let mut entries = Vec::new();
                std::mem::swap(&mut entries, &mut self.entries);
                entries.set(i, (key, value));
                proof {
                    assert(entries@.map_values(|e: (String, InMemoryReceivedSkin)| (e.0@, e.1)) =~= s.update(i as int, (k, value)));
                    lemma_received_insert(s, k, value, seq!['x']);
                }
                self.entries = entries;
                return;
            }
            i = i + 1;
        }
        proof {
            assert(!has_key(s, k));
            lemma_received_insert(s, k, value, seq!['x']);
        }
        let mut entries = Vec::new();
        std::mem::swap(&mut entries, &mut self.entries);
        entries.push((key, value));
        proof {
            assert(entries@.map_values(|e: (String, InMemoryReceivedSkin)| (e.0@, e.1)) =~= s.push((k, value)));
        }
        self.entries = entries;
    }

    /// Forgets everything stored.
    pub fn clear(&mut self)
        ensures
            final(self)@ == Seq::<(Seq<char>, InMemoryReceivedSkin)>::empty(),
    {
        self.entries = Vec::new();
        assert(self@ =~= Seq::<(Seq<char>, InMemoryReceivedSkin)>::empty());
    }
}

/// Forgets the skins friends shared (a new champion select starts).
pub fn clear_received_skins(received: &mut ReceivedSkins)
    ensures
        final(received)@ == Seq::<(Seq<char>, InMemoryReceivedSkin)>::empty(),
{
    received.clear();
}

// ---------------------------------------------------------------------------
// Incoming party-mode messages
// ---------------------------------------------------------------------------

/// The payload of a shared skin.
#[derive(Debug, PartialEq)]
pub struct SkinShare {
    pub from_summoner_id: String,
    pub from_summoner_name: String,
    pub champion_id: u32,
    pub skin_id: u32,
    pub skin_name: String,
    pub chroma_id: Option<u32>,
    pub fantome_path: Option<String>,
    pub timestamp: u64,
}

/// The prefix that marks party-mode chat messages.
pub open spec fn party_prefix() -> Seq<char> {
    seq!['O', 'S', 'S', ':']
}

/// The part of a chat message after the party-mode prefix, where it has the prefix.
pub open spec fn party_payload(body: Seq<char>) -> Option<Seq<char>> {
    if body.len() >= 4 && body.subrange(0, 4) == party_prefix() {
        Some(body.subrange(4, body.len() as int))
    } else {
        None
    }
}

/// Strips the party-mode prefix `OSS:` from a chat message body.
pub fn strip_party_prefix(body: &str) -> (r: Option<String>)
    ensures
        match r {
            Some(p) => party_payload(body@) == Some(p@),
            None => party_payload(body@) is None,
        },
{
    let n = body.unicode_len();
    if n < 4 {
        return None;
    }
    let head = body.substring_char(0, 4);
    proof {
        reveal_strlit("OSS:");
        assert("OSS:"@ =~= party_prefix());
    }
    if str_eq(head, "OSS:") {
        Some(String::from_str(body.substring_char(4, n)))
    } else {
        None
    }
}

/// What became of a party-mode message.
#[derive(Debug, PartialEq)]
pub enum PartyMessageOutcome {
    /// A message type this version does not handle; ignored.
    UnknownType,
    /// A skin share whose data could not be read.
    Malformed,
    /// A skin share sent by the local player; ignored.
    IgnoredSelf,
    /// A skin share outside champion select; ignored.
    IgnoredNotInChampSelect,
    /// A skin share now stored for this champion select.
    Stored,
}

/// The outcome of a party-mode message of type `message_type` whose data decoded to `share`.
pub open spec fn party_message_outcome(
    in_champ_select: bool,
    message_type: Seq<char>,
    share: Option<SkinShare>,
    current_summoner_id: Seq<char>,
) -> PartyMessageOutcome {
    if message_type != "skin_share"@ {
        PartyMessageOutcome::UnknownType
    } else {
        match share {
            None => PartyMessageOutcome::Malformed,
            Some(s) => if s.from_summoner_id@ == current_summoner_id {
                PartyMessageOutcome::IgnoredSelf
            } else if !in_champ_select {
                PartyMessageOutcome::IgnoredNotInChampSelect
            } else {
                PartyMessageOutcome::Stored
            },
        }
    }
}

/// The stored form of a shared skin.
pub open spec fn received_from_share(s: SkinShare) -> InMemoryReceivedSkin {
    InMemoryReceivedSkin {
        from_summoner_id: s.from_summoner_id,
        from_summoner_name: s.from_summoner_name,
        champion_id: s.champion_id,
        skin_id: s.skin_id,
        chroma_id: s.chroma_id,
        fantome_path: s.fantome_path,
        received_at: s.timestamp,
    }
}

/// Handles a party-mode message: a friend's skin share is kept (one per friend and
/// champion, the latest winning) while in champion select; the local player's own
/// shares and other message types are ignored.
pub fn handle_party_mode_message(
    received: &mut ReceivedSkins,
    in_champ_select: bool,
    message_type: &str,
    share: Option<SkinShare>,
    current_summoner_id: &str,
) -> (r: PartyMessageOutcome)
    ensures
        r == party_message_outcome(in_champ_select, message_type@, share, current_summoner_id@),
        r is Stored ==> final(received)@ == received_insert(
            old(received)@,
            received_key(share->0.from_summoner_id@, share->0.champion_id),
            received_from_share(share->0),
        ),
        !(r is Stored) ==> final(received)@ == old(received)@,
{
    if !str_eq(message_type, "skin_share") {
        return PartyMessageOutcome::UnknownType;
    }
    let s = match share {
        Some(s) => s,
        None => return PartyMessageOutcome::Malformed,
    };
    if str_eq(s.from_summoner_id.as_str(), current_summoner_id) {
        return PartyMessageOutcome::IgnoredSelf;
    }
    if !in_champ_select {
        return PartyMessageOutcome::IgnoredNotInChampSelect;
    }
    let key = received_skin_key(s.from_summoner_id.as_str(), s.champion_id);
    let skin = InMemoryReceivedSkin {
        from_summoner_id: s.from_summoner_id,
        from_summoner_name: s.from_summoner_name,
        champion_id: s.champion_id,
        skin_id: s.skin_id,
        chroma_id: s.chroma_id,
        fantome_path: s.fantome_path,
        received_at: s.timestamp,
    };
    received.insert(key, skin);
    PartyMessageOutcome::Stored
}

// ---------------------------------------------------------------------------
// When to inject: every paired friend in the party has shared
// ---------------------------------------------------------------------------

/// The paired friends with sharing enabled, in order.
pub open spec fn sharing_friends(fs: Seq<PairedFriend>) -> Seq<PairedFriend>
    decreases fs.len(),
{
    if fs.len() == 0 {
        fs
    } else if fs.last().share_enabled {
        sharing_friends(fs.drop_last()).push(fs.last())
    } else {
        sharing_friends(fs.drop_last())
    }
}

/// The friends whose summoner id is among the party members, in order.
pub open spec fn friends_in_party(fs: Seq<PairedFriend>, party: Seq<Seq<char>>) -> Seq<PairedFriend>
    decreases fs.len(),
{
    if fs.len() == 0 {
        fs
    } else if party.contains(fs.last().summoner_id@) {
        friends_in_party(fs.drop_last(), party).push(fs.last())
    } else {
        friends_in_party(fs.drop_last(), party)
    }
}

/// Whether a skin from this friend, for any champion, is stored.
pub open spec fn has_shared(received: Seq<(Seq<char>, InMemoryReceivedSkin)>, id: Seq<char>) -> bool {
    exists|i: int| 0 <= i < received.len() && (#[trigger] received[i]).1.from_summoner_id@ == id
}

/// Whether to inject now: never before the local player holds a champion; at
/// once without saved configuration, without sharing friends, without a client
/// connection or without sharing friends in the party; otherwise once every
/// sharing friend in the party has shared a skin.
pub open spec fn should_inject_verdict(
    champion_id: u32,
    friends: Option<Seq<PairedFriend>>,
    connected: bool,
    party: Seq<Seq<char>>,
    received: Seq<(Seq<char>, InMemoryReceivedSkin)>,
) -> bool {
    if champion_id == 0 {
        false
    } else {
        match friends {
            None => true,
            Some(fs) => {
                let sharing = sharing_friends(fs);
                if sharing.len() == 0 || !connected {
                    true
                } else {
                    let here = friends_in_party(sharing, party);
                    here.len() == 0 || forall|k: int| 0 <= k < here.len() ==> has_shared(received, #[trigger] here[k].summoner_id@)
                }
            },
        }
    }
}

fn contains_string(v: &Vec<String>, s: &str) -> (r: bool)
    ensures
        r == crate::text::views(v@).contains(s@),
{
    let mut i: usize = 0;
    while i < v.len()
        invariant
            0 <= i <= v.len(),
            forall|k: int| 0 <= k < i ==> v@[k]@ != s@,
        decreases v.len() - i,
    {
        if str_eq(v[i].as_str(), s) {
            assert(crate::text::views(v@)[i as int] == s@);
            return true;
        }
        i = i + 1;
    }
    proof {
        if crate::text::views(v@).contains(s@) {
            let k = choose|k: int| 0 <= k < crate::text::views(v@).len() && crate::text::views(v@)[k] == s@;
            assert(v@[k]@ == s@);
        }
    }
    false
}

fn has_shared_exec(received: &ReceivedSkins, id: &str) -> (r: bool)
    ensures
        r == has_shared(received@, id@),
{
    let n = received.len();
    let mut i: usize = 0;
    while i < n
        invariant
            0 <= i <= n,
            n == received@.len(),
            forall|k: int| 0 <= k < i ==> (#[trigger] received@[k]).1.from_summoner_id@ != id@,
        decreases n - i,
    {
        if str_eq(received.get(i).from_summoner_id.as_str(), id) {
            return true;
        }
        i = i + 1;
    }
    false
}

/// Decides whether party-mode injection may start for `champion_id`.
pub fn should_inject_now(
    champion_id: u32,
    config: Option<&SavedConfig>,
    connected: bool,
    party_member_ids: &Vec<String>,
    received: &ReceivedSkins,
) -> (r: bool)
    ensures
        r == should_inject_verdict(
            champion_id,
            match config { Some(c) => Some(c.party_mode.paired_friends@), None => None },
            connected,
            crate::text::views(party_member_ids@),
            received@,
        ),
{
    if champion_id == 0 {
        return false;
    }
    let cfg = match config {
        Some(c) => c,
        None => return true,
    };
    let fs = &cfg.party_mode.paired_friends;
    let ghost party = crate::text::views(party_member_ids@);
    let mut any_sharing = false;
    let mut all_shared = true;
    let mut any_here = false;
    let mut i: usize = 0;
    while i < fs.len()
        invariant
            0 <= i <= fs.len(),
            party == crate::text::views(party_member_ids@),
            any_sharing == (sharing_friends(fs@.take(i as int)).len() > 0),
            any_here == (friends_in_party(sharing_friends(fs@.take(i as int)), party).len() > 0),
            all_shared == forall|k: int| 0 <= k < friends_in_party(sharing_friends(fs@.take(i as int)), party).len()
                ==> has_shared(received@, #[trigger] friends_in_party(sharing_friends(fs@.take(i as int)), party)[k].summoner_id@),
        decreases fs.len() - i,
    {
        let f = &fs[i];
        let ghost prev = fs@.take(i as int);
        proof {
            assert(fs@.take(i as int + 1).drop_last() =~= prev);
            assert(fs@.take(i as int + 1).last() == fs@[i as int]);
        }
        if f.share_enabled {
            any_sharing = true;
            if contains_string(party_member_ids, f.summoner_id.as_str()) {
                any_here = true;
                let shared = has_shared_exec(received, f.summoner_id.as_str());
                let ghost old_here = friends_in_party(sharing_friends(prev), party);
                let ghost new_here = old_here.push(fs@[i as int]);
                proof {
                    let sp = sharing_friends(prev).push(fs@[i as int]);
                    assert(sharing_friends(fs@.take(i as int + 1)) == sp);
                    assert(sp.drop_last() =~= sharing_friends(prev));
                    assert(sp.last() == fs@[i as int]);
                    assert(party.contains(fs@[i as int].summoner_id@));
                    assert(friends_in_party(sharing_friends(fs@.take(i as int + 1)), party) == new_here);
                    if shared && all_shared {
                        assert forall|k: int| 0 <= k < new_here.len() implies has_shared(received@, #[trigger] new_here[k].summoner_id@) by {
                            if k < old_here.len() {
                                assert(new_here[k] == old_here[k]);
                            }
                        }
                    }
                    if !all_shared {
                        let k = choose|k: int| 0 <= k < old_here.len() && !has_shared(received@, #[trigger] old_here[k].summoner_id@);
                        assert(new_here[k] == old_here[k]);
                    }
                    if !shared {
                        assert(new_here[old_here.len() as int] == fs@[i as int]);
                    }
                }
                all_shared = all_shared && shared;
            } else {
                proof {
                    let sp = sharing_friends(prev).push(fs@[i as int]);
                    assert(sharing_friends(fs@.take(i as int + 1)) == sp);
                    assert(sp.drop_last() =~= sharing_friends(prev));
                    assert(sp.last() == fs@[i as int]);
                    assert(friends_in_party(sharing_friends(fs@.take(i as int + 1)), party)
                        == friends_in_party(sharing_friends(prev), party));
                }
            }
        }
        i = i + 1;
    }
    proof {
        assert(fs@.take(i as int) =~= fs@);
    }
    if !any_sharing || !connected {
        return true;
    }
    !any_here || all_shared
}


/// The friends a skin share goes to: the paired friends with sharing on, in order.
pub fn share_recipients(config: &SavedConfig) -> (r: Vec<PairedFriend>)
    ensures
        r@ == sharing_friends(config.party_mode.paired_friends@),
{
    let fs = &config.party_mode.paired_friends;
    let mut out: Vec<PairedFriend> = Vec::new();
    let mut i: usize = 0;
    while i < fs.len()
        invariant
            0 <= i <= fs.len(),
            out@ == sharing_friends(fs@.take(i as int)),
        decreases fs.len() - i,
    {
        proof {
            assert(fs@.take(i as int + 1).drop_last() =~= fs@.take(i as int));
            assert(fs@.take(i as int + 1).last() == fs@[i as int]);
        }
        if fs[i].share_enabled {
            out.push(fs[i].clone());
        }
        i = i + 1;
    }
    proof {
        assert(fs@.take(i as int) =~= fs@);
    }
    out
}

/// The skin share sent to friends when a skin is chosen in champion select:
/// from the current summoner, named after the chosen skin's archive where the
/// configuration has it, `"Skin {id}"` where the skin is not among the choices.
pub fn build_skin_share(
    config: &SavedConfig,
    from_summoner_id: String,
    from_summoner_name: String,
    champion_id: u32,
    skin_id: u32,
    chroma_id: Option<u32>,
    fantome_path: Option<String>,
    timestamp: u64,
) -> (r: SkinShare)
    ensures
        r.from_summoner_id == from_summoner_id,
        r.from_summoner_name == from_summoner_name,
        r.champion_id == champion_id,
        r.skin_id == skin_id,
        r.chroma_id == chroma_id,
        r.fantome_path == fantome_path,
        r.timestamp == timestamp,
        crate::settings::chosen_skin(config.skins@, champion_id, skin_id) is None ==> r.skin_name@ == "Skin "@ + dec(skin_id as nat),
        crate::settings::chosen_skin(config.skins@, champion_id, skin_id) matches Some(s) && s.skin_file is None
            ==> r.skin_name@ == crate::settings::skin_name_for(champion_id, skin_id, None),
        crate::settings::chosen_skin(config.skins@, champion_id, skin_id) matches Some(s) ==> (
            s.skin_file is Some && crate::settings::portable_file_path(s.skin_file->0@)
            ==> r.skin_name@ == crate::settings::skin_name_for(champion_id, skin_id, Some(crate::settings::file_stem_of(s.skin_file->0@)))),
{
    let skin_name = match crate::settings::get_skin_name_from_config(config, champion_id, skin_id) {
        Some(n) => n,
        None => {
            let mut n = String::from_str("Skin ");
            write_dec(&mut n, skin_id as u64);
            n
        },
    };
    SkinShare { from_summoner_id, from_summoner_name, champion_id, skin_id, skin_name, chroma_id, fantome_path, timestamp }
}

} // verus!
