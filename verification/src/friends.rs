//! The friends list, conversations and the local summoner as the chat API
//! reports them.
use vstd::prelude::*;
use crate::text::{dec, dec_int, str_eq, push_str, u64_to_string, i64_to_string, views};
use crate::json::{Json, get_str, get_u64, get_i64, as_array_of};
use crate::chat::{message_sender_of, message_sender};
use crate::flow::opt_view;
use crate::lockfile::{split_on, split_chars, lemma_split_nonempty};
use crate::sorting::{lex_le, lex_le_exec};

verus! {

/// A friend as listed by the chat API.
#[derive(Debug, PartialEq)]
pub struct FriendInfo {
    pub summoner_id: String,
    pub summoner_name: String,
    pub display_name: String,
    pub is_online: bool,
    pub availability: Option<String>,
    pub puuid: String,
    pub pid: String,
}

/// A string member, empty where missing.
pub open spec fn str_member_or_empty(j: Json, key: Seq<char>) -> Seq<char> {
    match get_str(j, key) {
        Some(s) => s,
        None => seq![],
    }
}

fn str_member_or_empty_exec(j: &Json, key: &str) -> (r: String)
    ensures
        r@ == str_member_or_empty(*j, key@),
{
    match j.get_str(key) {
        Some(s) => String::from_str(s),
        None => {
            proof {
                reveal_strlit("");
            }
            String::new()
        },
    }
}

/// `"{name}#{tag}"`, or the name without a tag, or `"Unknown"`.
pub open spec fn riot_display_name(name: Seq<char>, tag: Seq<char>) -> Seq<char> {
    if name.len() > 0 && tag.len() > 0 {
        name + "#"@ + tag
    } else if name.len() > 0 {
        name
    } else {
        "Unknown"@
    }
}

/// Whether a friends-list entry is usable: it has a numeric summoner id, a puuid and a pid.
pub open spec fn friend_entry_ok(j: Json) -> bool {
    get_u64(j, "summonerId"@) is Some && str_member_or_empty(j, "puuid"@).len() > 0
        && str_member_or_empty(j, "pid"@).len() > 0
}

/// The usable entries, in order.
pub open spec fn usable_friends(s: Seq<Json>) -> Seq<Json>
    decreases s.len(),
{
    if s.len() == 0 {
        seq![]
    } else if friend_entry_ok(s.last()) {
        usable_friends(s.drop_last()).push(s.last())
    } else {
        usable_friends(s.drop_last())
    }
}

/// Whether `f` is what the entry `j` describes.
pub open spec fn friend_describes(f: FriendInfo, j: Json) -> bool {
    let name = str_member_or_empty(j, "gameName"@);
    &&& f.summoner_id@ == dec(get_u64(j, "summonerId"@)->0 as nat)
    &&& f.summoner_name@ == name
    &&& f.display_name@ == riot_display_name(name, str_member_or_empty(j, "gameTag"@))
    &&& f.is_online == match get_str(j, "availability"@) { Some(a) => a != "offline"@, None => false }
    &&& opt_view(f.availability) == get_str(j, "availability"@)
    &&& f.puuid@ == str_member_or_empty(j, "puuid"@)
    &&& f.pid@ == str_member_or_empty(j, "pid"@)
}

fn riot_display_name_exec(name: &str, tag: &str) -> (r: String)
    ensures
        r@ == riot_display_name(name@, tag@),
{
    let ln = name.unicode_len();
    let lt = tag.unicode_len();
    if ln > 0 && lt > 0 {
        let mut s = String::from_str(name);
        push_str(&mut s, "#");
        push_str(&mut s, tag);
        s
    } else if ln > 0 {
        String::from_str(name)
    } else {
        String::from_str("Unknown")
    }
}

/// Reads the usable entries of a friends list.
pub fn parse_friends(data: &Json) -> (r: Vec<FriendInfo>)
    ensures
        match as_array_of(*data) {
            Some(arr) => r@.len() == usable_friends(arr).len()
                && forall|k: int| 0 <= k < r@.len() ==> friend_describes(#[trigger] r@[k], usable_friends(arr)[k]),
            None => r@.len() == 0,
        },
{
    let mut out: Vec<FriendInfo> = Vec::new();
    let arr = match data.as_array() {
        Some(a) => a,
        None => return out,
    };
    let mut i: usize = 0;
    while i < arr.len()
        invariant
            0 <= i <= arr.len(),
            out@.len() == usable_friends(arr@.take(i as int)).len(),
            forall|k: int| 0 <= k < out@.len() ==> friend_describes(#[trigger] out@[k], usable_friends(arr@.take(i as int))[k]),
        decreases arr.len() - i,
    {
        let f = &arr[i];
        let ghost t = arr@.take(i as int + 1);
        proof {
            assert(t.drop_last() =~= arr@.take(i as int));
            assert(t.last() == arr@[i as int]);
        }
        let sid = f.get_u64("summonerId");
        let puuid = str_member_or_empty_exec(f, "puuid");
        let pid = str_member_or_empty_exec(f, "pid");
        let name = str_member_or_empty_exec(f, "gameName");
        let tag = str_member_or_empty_exec(f, "gameTag");
        if let Some(id) = sid {
            if puuid.as_str().unicode_len() > 0 && pid.as_str().unicode_len() > 0 {
                let display = riot_display_name_exec(name.as_str(), tag.as_str());
                let availability: Option<String> = match f.get_str("availability") {
                    Some(a) => Some(String::from_str(a)),
                    None => None,
                };
                let online = match f.get_str("availability") {
                    Some(a) => !str_eq(a, "offline"),
                    None => false,
                };
                let info = FriendInfo {
                    summoner_id: u64_to_string(id),
                    summoner_name: name,
                    display_name: display,
                    is_online: online,
                    availability,
                    puuid,
                    pid,
                };
                let ghost before = out@;
                out.push(info);
                proof {
                    assert(usable_friends(t) == usable_friends(arr@.take(i as int)).push(arr@[i as int]));
                    assert forall|k: int| 0 <= k < out@.len() implies friend_describes(#[trigger] out@[k], usable_friends(t)[k]) by {
                        if k < before.len() {
                            assert(out@[k] == before[k]);
                        }
                    }
                }
            }
        }
        i = i + 1;
    }
    proof {
        assert(arr@.take(i as int) =~= arr@);
    }
    out
}

/// The display name of a paired friend, from the friends list.
pub open spec fn friend_display_name_of(friends: Seq<FriendInfo>, id: Seq<char>) -> Option<Seq<char>>
    decreases friends.len(),
{
    if friends.len() == 0 {
        None
    } else if friends[0].summoner_id@ == id {
        Some(friends[0].display_name@)
    } else {
        friend_display_name_of(friends.drop_first(), id)
    }
}

/// Looks up a friend's display name, or says the friend is not listed.
pub fn get_friend_display_name(friends: &Vec<FriendInfo>, friend_summoner_id: &str) -> (r: Result<String, String>)
    ensures
        match r {
            Ok(n) => friend_display_name_of(friends@, friend_summoner_id@) == Some(n@),
            Err(e) => friend_display_name_of(friends@, friend_summoner_id@) is None
                && e@ == "Friend with summoner ID "@ + friend_summoner_id@ + " not found"@,
        },
{
    let mut i: usize = 0;
    proof {
        assert(friends@.skip(0) =~= friends@);
    }
    while i < friends.len()
        invariant
            0 <= i <= friends.len(),
            friend_display_name_of(friends@, friend_summoner_id@) == friend_display_name_of(friends@.skip(i as int), friend_summoner_id@),
        decreases friends.len() - i,
    {
        proof {
            assert(friends@.skip(i as int).drop_first() =~= friends@.skip(i as int + 1));
            assert(friends@.skip(i as int)[0] == friends@[i as int]);
        }
        if str_eq(friends[i].summoner_id.as_str(), friend_summoner_id) {
            return Ok(friends[i].display_name.clone());
        }
        i = i + 1;
    }
    let mut e = String::from_str("Friend with summoner ID ");
    push_str(&mut e, friend_summoner_id);
    push_str(&mut e, " not found");
    Err(e)
}

/// The pid of the first friends-list entry with this summoner id (none if it has none).
pub open spec fn friend_pid_of(friends: Seq<Json>, id: Seq<char>) -> Option<Seq<char>>
    decreases friends.len(),
{
    if friends.len() == 0 {
        None
    } else if get_u64(friends[0], "summonerId"@) is Some && dec(get_u64(friends[0], "summonerId"@)->0 as nat) == id {
        get_str(friends[0], "pid"@)
    } else {
        friend_pid_of(friends.drop_first(), id)
    }
}

/// Finds a friend's pid in the friends list.
pub fn friend_pid_from_friends(friends_data: &Json, friend_summoner_id: &str) -> (r: Option<String>)
    ensures
        opt_view(r) == match as_array_of(*friends_data) {
            Some(arr) => friend_pid_of(arr, friend_summoner_id@),
            None => None,
        },
{
    let arr = match friends_data.as_array() {
        Some(a) => a,
        None => return None,
    };
    let mut i: usize = 0;
    proof {
        assert(arr@.skip(0) =~= arr@);
    }
    while i < arr.len()
        invariant
            0 <= i <= arr.len(),
            as_array_of(*friends_data) == Some(arr@),
            friend_pid_of(arr@, friend_summoner_id@) == friend_pid_of(arr@.skip(i as int), friend_summoner_id@),
        decreases arr.len() - i,
    {
        proof {
            assert(arr@.skip(i as int).drop_first() =~= arr@.skip(i as int + 1));
            assert(arr@.skip(i as int)[0] == arr@[i as int]);
        }
        if let Some(sid) = arr[i].get_u64("summonerId") {
            let s = u64_to_string(sid);
            if str_eq(s.as_str(), friend_summoner_id) {
                return match arr[i].get_str("pid") {
                    Some(p) => Some(String::from_str(p)),
                    None => None,
                };
            }
        }
        i = i + 1;
    }
    None
}

/// The id of the first conversation with this pid that has an id.
pub open spec fn conversation_for_pid(convs: Seq<Json>, pid: Seq<char>) -> Option<Seq<char>>
    decreases convs.len(),
{
    if convs.len() == 0 {
        None
    } else if get_str(convs[0], "pid"@) == Some(pid) && get_str(convs[0], "id"@) is Some {
        get_str(convs[0], "id"@)
    } else {
        conversation_for_pid(convs.drop_first(), pid)
    }
}

/// Finds the conversation held with a pid.
pub fn conversation_id_for_pid(conversations: &Json, pid: &str) -> (r: Option<String>)
    ensures
        opt_view(r) == match as_array_of(*conversations) {
            Some(arr) => conversation_for_pid(arr, pid@),
            None => None,
        },
{
    let arr = match conversations.as_array() {
        Some(a) => a,
        None => return None,
    };
    let mut i: usize = 0;
    proof {
        assert(arr@.skip(0) =~= arr@);
    }
    while i < arr.len()
        invariant
            0 <= i <= arr.len(),
            as_array_of(*conversations) == Some(arr@),
            conversation_for_pid(arr@, pid@) == conversation_for_pid(arr@.skip(i as int), pid@),
        decreases arr.len() - i,
    {
        proof {
            assert(arr@.skip(i as int).drop_first() =~= arr@.skip(i as int + 1));
            assert(arr@.skip(i as int)[0] == arr@[i as int]);
        }
        if arr[i].str_member_is("pid", pid) {
            if let Some(id) = arr[i].get_str("id") {
                return Some(String::from_str(id));
            }
        }
        i = i + 1;
    }
    None
}

/// Whether some message of the list was sent by this summoner.
pub open spec fn sent_by(messages: Seq<Json>, id: Seq<char>) -> bool {
    exists|k: int| 0 <= k < messages.len() && message_sender_of(#[trigger] messages[k]) == Some(id)
}

/// The pid of a conversation in which the summoner sent a message.
pub fn pid_if_sender_in(conversation: &Json, messages: &Json, friend_summoner_id: &str) -> (r: Option<String>)
    ensures
        opt_view(r) == match as_array_of(*messages) {
            Some(ms) => if sent_by(ms, friend_summoner_id@) { get_str(*conversation, "pid"@) } else { None },
            None => None,
        },
{
    let ms = match messages.as_array() {
        Some(m) => m,
        None => return None,
    };
    let mut i: usize = 0;
    while i < ms.len()
        invariant
            0 <= i <= ms.len(),
            as_array_of(*messages) == Some(ms@),
            forall|k: int| 0 <= k < i ==> message_sender_of(#[trigger] ms@[k]) != Some(friend_summoner_id@),
        decreases ms.len() - i,
    {
        if let Some(s) = message_sender(&ms[i]) {
            if str_eq(s.as_str(), friend_summoner_id) {
                assert(sent_by(ms@, friend_summoner_id@));
                return match conversation.get_str("pid") {
                    Some(p) => Some(String::from_str(p)),
                    None => None,
                };
            }
        }
        i = i + 1;
    }
    None
}

/// The local summoner's display name: `displayName`, else the Riot id, else
/// `summonerName` or `name`, else `"User{id}"`.
pub open spec fn summoner_display_name(data: Json, id: Seq<char>) -> Seq<char> {
    let display = str_member_or_empty(data, "displayName"@);
    if display.len() > 0 {
        display
    } else {
        let name = str_member_or_empty(data, "gameName"@);
        let tag = str_member_or_empty(data, "gameTag"@);
        if name.len() > 0 && tag.len() > 0 {
            name + "#"@ + tag
        } else if name.len() > 0 {
            name
        } else {
            match get_str(data, "summonerName"@) {
                Some(s) => s,
                None => match get_str(data, "name"@) {
                    Some(s) => s,
                    None => "User"@ + id,
                },
            }
        }
    }
}

/// Reads the local summoner's id and display name from the current-summoner data.
pub fn current_summoner_from_json(data: &Json) -> (r: Result<(String, String), String>)
    ensures
        match r {
            Ok((id, name)) => get_u64(*data, "summonerId"@) is Some
                && id@ == dec(get_u64(*data, "summonerId"@)->0 as nat)
                && name@ == summoner_display_name(*data, id@),
            Err(e) => get_u64(*data, "summonerId"@) is None && e@ == "Summoner ID not found"@,
        },
{
    let id = match data.get_u64("summonerId") {
        Some(n) => u64_to_string(n),
        None => return Err(String::from_str("Summoner ID not found")),
    };
    let display = str_member_or_empty_exec(data, "displayName");
    if display.as_str().unicode_len() > 0 {
        return Ok((id, display));
    }
    let name = str_member_or_empty_exec(data, "gameName");
    let tag = str_member_or_empty_exec(data, "gameTag");
    let ln = name.as_str().unicode_len();
    let lt = tag.as_str().unicode_len();
    let final_name = if ln > 0 && lt > 0 {
        let mut s = name.clone();
        push_str(&mut s, "#");
        push_str(&mut s, tag.as_str());
        s
    } else if ln > 0 {
        name
    } else {
        match data.get_str("summonerName") {
            Some(s) => String::from_str(s),
            None => match data.get_str("name") {
                Some(s) => String::from_str(s),
                None => {
                    let mut s = String::from_str("User");
                    push_str(&mut s, id.as_str());
                    s
                },
            },
        }
    };
    Ok((id, final_name))
}

/// The summoner ids (as decimal text) of the members listed under `key`, in order.
pub open spec fn member_summoner_ids(members: Seq<Json>) -> Seq<Seq<char>>
    decreases members.len(),
{
    if members.len() == 0 {
        seq![]
    } else {
        let prev = member_summoner_ids(members.drop_last());
        match get_i64(members.last(), "summonerId"@) {
            Some(id) => prev.push(dec_int(id as int)),
            None => prev,
        }
    }
}

fn summoner_ids_of(members: &Vec<Json>) -> (r: Vec<String>)
    ensures
        views(r@) == member_summoner_ids(members@),
{
    let mut out: Vec<String> = Vec::new();
    let mut i: usize = 0;
    while i < members.len()
        invariant
            0 <= i <= members.len(),
            views(out@) == member_summoner_ids(members@.take(i as int)),
        decreases members.len() - i,
    {
        proof {
            assert(members@.take(i as int + 1).drop_last() =~= members@.take(i as int));
            assert(members@.take(i as int + 1).last() == members@[i as int]);
        }
        if let Some(id) = members[i].get_i64("summonerId") {
            let ghost before = out@;
            out.push(i64_to_string(id));
            proof {
                assert(views(out@) =~= views(before).push(dec_int(id as int)));
            }
        }
        i = i + 1;
    }
    proof {
        assert(members@.take(i as int) =~= members@);
    }
    out
}

/// The summoner ids of the local team in a champion-select session (`myTeam`).
pub fn party_ids_from_champ_select(session: &Json) -> (r: Vec<String>)
    ensures
        views(r@) == match get_array_member(*session, "myTeam"@) {
            Some(team) => member_summoner_ids(team),
            None => seq![],
        },
{
    match session.get_array("myTeam") {
        Some(team) => summoner_ids_of(team),
        None => {
            let v: Vec<String> = Vec::new();
            assert(views(v@) =~= Seq::<Seq<char>>::empty());
            v
        },
    }
}

/// The summoner ids of the lobby members (`members`).
pub fn party_ids_from_lobby(lobby: &Json) -> (r: Vec<String>)
    ensures
        views(r@) == match get_array_member(*lobby, "members"@) {
            Some(ms) => member_summoner_ids(ms),
            None => seq![],
        },
{
    match lobby.get_array("members") {
        Some(ms) => summoner_ids_of(ms),
        None => {
            let v: Vec<String> = Vec::new();
            assert(views(v@) =~= Seq::<Seq<char>>::empty());
            v
        },
    }
}

/// `j.get(key).and_then(as_array)`.
pub open spec fn get_array_member(j: Json, key: Seq<char>) -> Option<Seq<Json>> {
    crate::json::get_array(j, key)
}


/// A chat id without its server suffix: the part before the first `@`.
pub open spec fn without_server_suffix(id: Seq<char>) -> Seq<char> {
    split_on(id, '@')[0]
}

/// The id of the direct conversation of two chat participants: their ids in
/// lexicographic order, joined by `_`.
pub open spec fn direct_conversation_id(a: Seq<char>, b: Seq<char>) -> Seq<char> {
    if lex_le(a, b) { a + "_"@ + b } else { b + "_"@ + a }
}

/// The direct conversation with a friend, from the local player's puuid and
/// the friend's chat id (whose server suffix is dropped); an error where the
/// puuid is empty.
pub fn conversation_id_with(my_puuid: &str, friend_id: &str) -> (r: Result<String, String>)
    ensures
        match r {
            Ok(id) => my_puuid@.len() > 0 && id@ == direct_conversation_id(my_puuid@, without_server_suffix(friend_id@)),
            Err(e) => my_puuid@.len() == 0 && e@ == "Invalid summoner puuid"@,
        },
{
    if my_puuid.unicode_len() == 0 {
        return Err(String::from_str("Invalid summoner puuid"));
    }
    let parts = split_chars(friend_id, '@');
    proof {
        lemma_split_nonempty(friend_id@, '@');
        assert(views(parts@)[0] == parts@[0]@);
    }
    let friend = parts[0].as_str();
    let mut id = String::new();
    if lex_le_exec(my_puuid, friend) {
        push_str(&mut id, my_puuid);
        push_str(&mut id, "_");
        push_str(&mut id, friend);
    } else {
        push_str(&mut id, friend);
        push_str(&mut id, "_");
        push_str(&mut id, my_puuid);
    }
    Ok(id)
}


/// The local summoner's puuid and summoner id, where the summoner document
/// has a non-empty `puuid` and a positive `summonerId`.
pub open spec fn summoner_identity_of(data: Json) -> Option<(Seq<char>, i64)> {
    match (get_str(data, "puuid"@), get_i64(data, "summonerId"@)) {
        (Some(p), Some(id)) => if p.len() > 0 && id > 0 { Some((p, id)) } else { None },
        _ => None,
    }
}

/// Reads the local summoner's puuid and summoner id from the summoner document.
pub fn current_summoner_identity(data: &Json) -> (r: Option<(String, i64)>)
    ensures
        match r {
            Some((p, id)) => summoner_identity_of(*data) == Some((p@, id)),
            None => summoner_identity_of(*data) is None,
        },
{
    match (data.get_str("puuid"), data.get_i64("summonerId")) {
        (Some(p), Some(id)) => {
            if p.unicode_len() > 0 && id > 0 {
                Some((String::from_str(p), id))
            } else {
                None
            }
        },
        _ => None,
    }
}


/// The error when a friend's pid is found neither in the friends list nor in
/// the conversations.
pub open spec fn friend_not_found_message(friend_summoner_id: Seq<char>) -> Seq<char> {
    "Friend with summoner ID "@ + friend_summoner_id + " not found in friends list or conversations"@
}

/// The friend's pid where it was found, else the error saying it was not.
pub fn friend_pid_or_error(found: Option<String>, friend_summoner_id: &str) -> (r: Result<String, String>)
    ensures
        match found {
            Some(p) => r == Ok::<String, String>(p),
            None => r matches Err(e) && e@ == friend_not_found_message(friend_summoner_id@),
        },
{
    match found {
        Some(p) => Ok(p),
        None => {
            let mut e = String::from_str("Friend with summoner ID ");
            push_str(&mut e, friend_summoner_id);
            push_str(&mut e, " not found in friends list or conversations");
            Err(e)
        },
    }
}

/// What to do once the client was asked to create a conversation.
#[derive(Debug, PartialEq)]
pub enum ConversationNext {
    /// Use this conversation id.
    Use(String),
    /// Give up with this error.
    Fail(String),
    /// The creation was refused: try the friend's pid as a conversation id.
    ProbePid,
}

/// Decides from the answer to a conversation creation: the new conversation's
/// `id` where the creation succeeded (`Some` of its body), an error where that
/// body has none, and a probe of the pid where the creation was refused.
pub fn conversation_after_creation(created: Option<&Json>) -> (r: ConversationNext)
    ensures
        match created {
            Some(body) => match get_str(*body, "id"@) {
                Some(id) => r matches ConversationNext::Use(x) && x@ == id,
                None => r matches ConversationNext::Fail(e) && e@ == "Failed to get conversation ID from created conversation"@,
            },
            None => r is ProbePid,
        },
{
    match created {
        Some(body) => match body.get_str("id") {
            Some(id) => ConversationNext::Use(String::from_str(id)),
            None => ConversationNext::Fail(String::from_str("Failed to get conversation ID from created conversation")),
        },
        None => ConversationNext::ProbePid,
    }
}

/// After a refused creation: the friend's pid where the client knows a
/// conversation by that id, else the friend's summoner id.
pub fn conversation_after_probe(pid_is_conversation: bool, friend_pid: &str, friend_summoner_id: &str) -> (r: String)
    ensures
        r@ == if pid_is_conversation { friend_pid@ } else { friend_summoner_id@ },
{
    if pid_is_conversation {
        String::from_str(friend_pid)
    } else {
        String::from_str(friend_summoner_id)
    }
}

} // verus!
