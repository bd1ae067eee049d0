//! Scanning chat conversations for party-mode messages: which messages to
//! handle, which are stale, and the memory of messages already seen.
use vstd::prelude::*;
use crate::text::{str_eq, views, u64_to_string};
use crate::json::{Json, jget, get_str, get_u64, as_str_of, as_u64_of, as_i64_of};
use crate::party::{party_payload, party_prefix};
use crate::sorting::{sorted_items, sort_strings_views};

verus! {

/// The instant an RFC 3339 timestamp denotes, in milliseconds since the epoch.
pub uninterp spec fn rfc3339_timestamp_millis(s: Seq<char>) -> Option<i64>;

/// Parses an RFC 3339 timestamp through `chrono::DateTime::parse_from_rfc3339`
/// and reads it with `timestamp_millis`; the result is named `rfc3339_timestamp_millis`.
#[verifier::external_body]
fn parse_rfc3339_millis(s: &str) -> (r: Option<i64>)
    ensures
        r == rfc3339_timestamp_millis(s@),
{
    chrono::DateTime::parse_from_rfc3339(s).ok().map(|dt| dt.timestamp_millis())
}

/// The id of a chat message: its string or numeric `id`, `"unknown"` otherwise.
pub open spec fn message_id_of(m: Json) -> Seq<char> {
    match jget(m, "id"@) {
        Some(v) => match as_str_of(v) {
            Some(s) => s,
            None => match as_u64_of(v) {
                Some(n) => crate::text::dec(n as nat),
                None => "unknown"@,
            },
        },
        None => "unknown"@,
    }
}

/// Reads the id of a chat message.
pub fn message_id(m: &Json) -> (id: String)
    ensures
        id@ == message_id_of(*m),
{
    match m.get("id") {
        Some(v) => match v.as_str() {
            Some(s) => String::from_str(s),
            None => match v.as_u64() {
                Some(n) => u64_to_string(n),
                None => String::from_str("unknown"),
            },
        },
        None => String::from_str("unknown"),
    }
}

/// The chat timestamp of a message: an RFC 3339 string, or a number (negative
/// ones wrapped to 64 unsigned bits), 0 when missing or unreadable.
pub open spec fn message_timestamp_of(m: Json) -> u64 {
    match jget(m, "timestamp"@) {
        Some(ts) => match as_str_of(ts) {
            Some(s) => match rfc3339_timestamp_millis(s) {
                Some(ms) => ms as u64,
                None => 0,
            },
            None => match as_u64_of(ts) {
                Some(n) => n,
                None => match as_i64_of(ts) {
                    Some(i) => i as u64,
                    None => 0,
                },
            },
        },
        None => 0,
    }
}

/// Reads the chat timestamp of a message.
pub fn message_timestamp(m: &Json) -> (t: u64)
    ensures
        t == message_timestamp_of(*m),
{
    match m.get("timestamp") {
        Some(ts) => match ts.as_str() {
            Some(s) => match parse_rfc3339_millis(s) {
                Some(ms) => ms as u64,
                None => 0,
            },
            None => match ts.as_u64() {
                Some(n) => n,
                None => match ts.as_i64() {
                    Some(i) => i as u64,
                    None => 0,
                },
            },
        },
        None => 0,
    }
}

/// The timestamp a party-mode message carries in its payload: `data.timestamp`,
/// else a top-level `timestamp`, else 0; 0 for other messages or payloads that
/// are not JSON (`payload` is the payload read as JSON, if it is).
pub open spec fn oss_timestamp_of(body: Seq<char>, payload: Option<Json>) -> u64 {
    if party_payload(body) is None {
        0
    } else {
        match payload {
            Some(v) => {
                let from_data = match jget(v, "data"@) {
                    Some(d) => get_u64(d, "timestamp"@),
                    None => None,
                };
                match from_data {
                    Some(t) => t,
                    None => match get_u64(v, "timestamp"@) {
                        Some(t) => t,
                        None => 0,
                    },
                }
            },
            None => 0,
        }
    }
}

/// Whether a message body starts with the party-mode prefix.
pub fn has_party_prefix(body: &str) -> (r: bool)
    ensures
        r == (party_payload(body@) is Some),
{
    let n = body.unicode_len();
    if n < 4 {
        return false;
    }
    proof {
        reveal_strlit("OSS:");
        assert("OSS:"@ =~= party_prefix());
    }
    str_eq(body.substring_char(0, 4), "OSS:")
}

/// Reads the timestamp a party-mode message carries in its payload.
pub fn extract_oss_message_timestamp(body: &str, payload: Option<&Json>) -> (t: u64)
    ensures
        t == oss_timestamp_of(body@, match payload { Some(p) => Some(*p), None => None }),
{
    if !has_party_prefix(body) {
        return 0;
    }
    match payload {
        Some(v) => {
            let from_data = match v.get("data") {
                Some(d) => d.get_u64("timestamp"),
                None => None,
            };
            match from_data {
                Some(t) => t,
                None => match v.get_u64("timestamp") {
                    Some(t) => t,
                    None => 0,
                },
            }
        },
        None => 0,
    }
}

/// The sender of a chat message: `fromSummonerId`, else `fromId`, else `senderId`.
pub open spec fn message_sender_of(m: Json) -> Option<Seq<char>> {
    match get_str(m, "fromSummonerId"@) {
        Some(s) => Some(s),
        None => match get_str(m, "fromId"@) {
            Some(s) => Some(s),
            None => get_str(m, "senderId"@),
        },
    }
}

/// Reads the sender of a chat message.
pub fn message_sender(m: &Json) -> (r: Option<String>)
    ensures
        match r {
            Some(s) => message_sender_of(*m) == Some(s@),
            None => message_sender_of(*m) is None,
        },
{
    match m.get_str("fromSummonerId") {
        Some(s) => Some(String::from_str(s)),
        None => match m.get_str("fromId") {
            Some(s) => Some(String::from_str(s)),
            None => match m.get_str("senderId") {
                Some(s) => Some(String::from_str(s)),
                None => None,
            },
        },
    }
}

/// The ids of chat messages already dealt with, each once.
pub struct ProcessedMessageIds {
    ids: Vec<String>,
}

impl View for ProcessedMessageIds {
    type V = Seq<Seq<char>>;

    closed spec fn view(&self) -> Seq<Seq<char>> {
        views(self.ids@)
    }
}

impl ProcessedMessageIds {
    #[verifier::type_invariant]
    closed spec fn ids_distinct(self) -> bool {
        views(self.ids@).no_duplicates()
    }

    /// No message dealt with yet.
    pub fn new() -> (r: Self)
        ensures
            r@ == Seq::<Seq<char>>::empty(),
    {
        let r = ProcessedMessageIds { ids: Vec::new() };
        assert(r@ =~= Seq::<Seq<char>>::empty());
        r
    }

    /// Number of ids kept.
    pub fn len(&self) -> (n: usize)
        ensures
            n == self@.len(),
            self@.no_duplicates(),
    {
        proof {
            use_type_invariant(self);
        }
        self.ids.len()
    }

    /// Whether the message was dealt with.
    pub fn contains(&self, id: &str) -> (r: bool)
        ensures
            r == self@.contains(id@),
    {
        let mut i: usize = 0;
        while i < self.ids.len()
            invariant
                0 <= i <= self.ids.len(),
                forall|k: int| 0 <= k < i ==> self.ids@[k]@ != id@,
            decreases self.ids.len() - i,
        {
            if str_eq(self.ids[i].as_str(), id) {
                assert(self@[i as int] == id@);
                return true;
            }
            i = i + 1;
        }
        proof {
            if self@.contains(id@) {
                let k = choose|k: int| 0 <= k < self@.len() && self@[k] == id@;
                assert(self.ids@[k]@ == id@);
            }
        }
        false
    }

    /// Records a message as dealt with.
    pub fn insert(&mut self, id: String)
        ensures
            final(self)@ == if old(self)@.contains(id@) { old(self)@ } else { old(self)@.push(id@) },
            final(self)@.no_duplicates(),
    {
        proof {
            use_type_invariant(&*self);
        }
        if !self.contains(id.as_str()) {
            let ghost before = self@;
            let mut ids = Vec::new();
            std::mem::swap(&mut ids, &mut self.ids);
            ids.push(id);
            proof {
                assert(views(ids@) =~= before.push(ids@.last()@));
                assert forall|a: int, b: int| 0 <= a < b < views(ids@).len() implies views(ids@)[a] != views(ids@)[b] by {
                    if b == before.len() {
                        assert(views(ids@)[a] == before[a]);
                    }
                }
            }
            self.ids = ids;
        }
    }

    /// Keeps the memory bounded: past 200 ids only the 100 greatest (in string order) stay.
    pub fn trim(&mut self)
        ensures
            old(self)@.len() <= 200 ==> final(self)@ == old(self)@,
            old(self)@.len() > 200 ==> final(self)@ == sorted_items(old(self)@).subrange(
                old(self)@.len() - 100,
                old(self)@.len() as int,
            ),
    {
        proof {
            use_type_invariant(&*self);
        }
        if self.ids.len() <= 200 {
            return;
        }
        let ghost before = self@;
        let mut ids = Vec::new();
        std::mem::swap(&mut ids, &mut self.ids);
        let mut sorted = sort_strings_views(ids);
        let n = sorted.len();
        proof {
            crate::sorting::lemma_sorted_items_permutes(before);
            vstd::seq_lib::to_multiset_len(before);
            vstd::seq_lib::to_multiset_len(sorted_items(before));
            assert(views(sorted@).len() == sorted@.len());
            assert(n == before.len());
        }
        let kept = sorted.split_off(n - 100);
        proof {
            assert(views(kept@) =~= sorted_items(before).subrange(n - 100, n as int));
            assert(views(kept@).no_duplicates()) by {
                let s = sorted_items(before);
                assert forall|a: int, b: int| 0 <= a < b < views(kept@).len() implies views(kept@)[a] != views(kept@)[b] by {
                    assert(views(kept@)[a] == s[a + n - 100]);
                    assert(views(kept@)[b] == s[b + n - 100]);
                    crate::sorting::lemma_no_duplicates_permutation(before, s, a + n - 100, b + n - 100);
                }
            }
        }
        self.ids = kept;
    }
}

/// What to do with a chat message.
#[derive(Debug, PartialEq)]
pub enum MessageTriage {
    /// No body, or not a party-mode message: left alone.
    NotPartyMessage,
    /// Dealt with before.
    AlreadyProcessed,
    /// From before the current champion select, or more than five minutes old.
    Stale,
    /// No sender id.
    NoSender,
    /// Hand it to the party-mode handler.
    Handle { from_summoner_id: String },
}

/// The timestamp a message is judged by: its payload's, else the chat's.
pub open spec fn effective_timestamp(oss_ts: u64, msg_ts: u64) -> u64 {
    if oss_ts > 0 { oss_ts } else { msg_ts }
}

/// Whether a message with this timestamp is stale: before the session start, or
/// more than five minutes before now.
pub open spec fn is_stale(effective: u64, session_start: u64, now: u64) -> bool {
    (session_start > 0 && effective > 0 && effective < session_start)
        || (effective > 0 && now > effective && now - effective > 300000)
}

/// Sorts a chat message (with its payload read as JSON, if it is) and records it
/// as dealt with unless it is not a party-mode message or was seen before.
pub fn triage_party_message(
    processed: &mut ProcessedMessageIds,
    message: &Json,
    payload: Option<&Json>,
    session_start_ms: u64,
    now_ms: u64,
) -> (r: MessageTriage)
    ensures
        ({
            let id = message_id_of(*message);
            let body = get_str(*message, "body"@);
            let eff = effective_timestamp(
                oss_timestamp_of(body->0, match payload { Some(p) => Some(*p), None => None }),
                message_timestamp_of(*message),
            );
            if body is None || party_payload(body->0) is None {
                r is NotPartyMessage && final(processed)@ == old(processed)@
            } else if old(processed)@.contains(id) {
                r is AlreadyProcessed && final(processed)@ == old(processed)@
            } else {
                &&& final(processed)@ == old(processed)@.push(id)
                &&& if is_stale(eff, session_start_ms, now_ms) {
                    r is Stale
                } else {
                    match message_sender_of(*message) {
                        Some(s) => r matches MessageTriage::Handle { from_summoner_id } && from_summoner_id@ == s,
                        None => r is NoSender,
                    }
                }
            }
        }),
{
    let body = match message.get_str("body") {
        Some(b) => b,
        None => return MessageTriage::NotPartyMessage,
    };
    if !has_party_prefix(body) {
        return MessageTriage::NotPartyMessage;
    }
    let id = message_id(message);
    if processed.contains(id.as_str()) {
        return MessageTriage::AlreadyProcessed;
    }
    let msg_ts = message_timestamp(message);
    let oss_ts = extract_oss_message_timestamp(body, payload);
    let eff = if oss_ts > 0 { oss_ts } else { msg_ts };
    processed.insert(id);
    if session_start_ms > 0 && eff > 0 && eff < session_start_ms {
        return MessageTriage::Stale;
    }
    if eff > 0 && now_ms > eff && now_ms - eff > 300000 {
        return MessageTriage::Stale;
    }
    match message_sender(message) {
        Some(s) => MessageTriage::Handle { from_summoner_id: s },
        None => MessageTriage::NoSender,
    }
}

} // verus!
