//! The layout of stored emails in a Firebase Realtime Database.
//!
//! Each accepted email is written under one key to three areas: `messages` holds the
//! full payload, `messageSummaries` the list data, `messageCleanup` only the time it was
//! received; `messageGroups` holds the count of messages and the latest key. Cleanup
//! reads `messageCleanup`, picks the keys received before the cutoff, and deletes each
//! key from the three areas.
use vstd::prelude::*;
use crate::session::{clone_texts, texts, ReceivedEmail};
use crate::text::{chars_of, string_of, trim_both, trim_chars, trim_end, trim_end_chars, CharClass};
use crate::time::{parse_rfc3339, rfc3339_parse_of, Timestamp};

verus! {

/// A top-level area of the database.
#[derive(Clone, Copy, Debug, PartialEq, Eq, Structural)]
pub enum FirebaseArea {
    Messages,
    MessageSummaries,
    MessageGroups,
    MessageCleanup,
}

/// The name of an area in URLs.
pub open spec fn area_name(area: FirebaseArea) -> Seq<char> {
    match area {
        FirebaseArea::Messages => "messages"@,
        FirebaseArea::MessageSummaries => "messageSummaries"@,
        FirebaseArea::MessageGroups => "messageGroups"@,
        FirebaseArea::MessageCleanup => "messageCleanup"@,
    }
}

/// `url` with `?auth=token` appended when a token is given.
pub open spec fn with_auth(url: Seq<char>, auth: Option<Seq<char>>) -> Seq<char> {
    match auth {
        Some(token) => url + "?auth="@ + token,
        None => url,
    }
}

/// `base/area/path`: the database URL without trailing `/`, the area, then the configured
/// path without leading or trailing `/`.
pub open spec fn area_location(base: Seq<char>, area: FirebaseArea, path: Seq<char>) -> Seq<char> {
    trim_end(base, CharClass::Only('/')) + "/"@ + area_name(area) + "/"@ + trim_both(
        path,
        CharClass::Only('/'),
    )
}

/// The URL of a whole area (under the configured path).
pub open spec fn area_url_of(
    base: Seq<char>,
    area: FirebaseArea,
    path: Seq<char>,
    auth: Option<Seq<char>>,
) -> Seq<char> {
    with_auth(area_location(base, area, path) + ".json"@, auth)
}

/// The URL of the record `key` in an area.
pub open spec fn record_url_of(
    base: Seq<char>,
    area: FirebaseArea,
    path: Seq<char>,
    key: Seq<char>,
    auth: Option<Seq<char>>,
) -> Seq<char> {
    with_auth(area_location(base, area, path) + "/"@ + key + ".json"@, auth)
}

/// The view of an optional string.
pub open spec fn opt_text(s: Option<&str>) -> Option<Seq<char>> {
    match s {
        Some(t) => Some(t@),
        None => None,
    }
}

fn area_text(area: FirebaseArea) -> (name: &'static str)
    ensures
        name@ == area_name(area),
{
    match area {
        FirebaseArea::Messages => "messages",
        FirebaseArea::MessageSummaries => "messageSummaries",
        FirebaseArea::MessageGroups => "messageGroups",
        FirebaseArea::MessageCleanup => "messageCleanup",
    }
}

fn append_auth(url: &mut String, auth: Option<&str>)
    ensures
        final(url)@ == with_auth(old(url)@, opt_text(auth)),
{
    match auth {
        Some(token) => {
            url.append("?auth=");
            url.append(token);
        },
        None => {},
    }
}

fn area_location_text(base: &str, area: FirebaseArea, path: &str) -> (loc: String)
    ensures
        loc@ == area_location(base@, area, path@),
{
    let b = trim_end_chars(&chars_of(base), CharClass::Only('/'));
    let p = trim_chars(&chars_of(path), CharClass::Only('/'));
    let mut loc = string_of(&b);
    loc.append("/");
    loc.append(area_text(area));
    loc.append("/");
    let ps = string_of(&p);
    loc.append(ps.as_str());
    loc
}

/// The URL of a whole area: where new messages are posted (`Messages`), where the group
/// metadata lives (`MessageGroups`), and what cleanup reads (`MessageCleanup`).
pub fn firebase_area_url(base: &str, area: FirebaseArea, path: &str, auth: Option<&str>) -> (url:
    String)
    ensures
        url@ == area_url_of(base@, area, path@, opt_text(auth)),
{
    let mut url = area_location_text(base, area, path);
    url.append(".json");
    append_auth(&mut url, auth);
    url
}

/// The URL of the record `key` in an area.
pub fn firebase_record_url(
    base: &str,
    area: FirebaseArea,
    path: &str,
    key: &str,
    auth: Option<&str>,
) -> (url: String)
    ensures
        url@ == record_url_of(base@, area, path@, key@, opt_text(auth)),
{
    let mut url = area_location_text(base, area, path);
    url.append("/");
    url.append(key);
    url.append(".json");
    append_auth(&mut url, auth);
    url
}

/// The writes that follow posting an email's full payload under `key`: its summary, its
/// cleanup entry, and the group metadata.
pub struct FirebaseWrites {
    pub summary_url: String,
    pub cleanup_url: String,
    pub group_url: String,
}

/// Where the writes that follow posting an email's full payload under `key` go.
pub fn firebase_message_writes(base: &str, path: &str, key: &str, auth: Option<&str>) -> (w:
    FirebaseWrites)
    ensures
        w.summary_url@ == record_url_of(base@, FirebaseArea::MessageSummaries, path@, key@, opt_text(auth)),
        w.cleanup_url@ == record_url_of(base@, FirebaseArea::MessageCleanup, path@, key@, opt_text(auth)),
        w.group_url@ == area_url_of(base@, FirebaseArea::MessageGroups, path@, opt_text(auth)),
{
    FirebaseWrites {
        summary_url: firebase_record_url(base, FirebaseArea::MessageSummaries, path, key, auth),
        cleanup_url: firebase_record_url(base, FirebaseArea::MessageCleanup, path, key, auth),
        group_url: firebase_area_url(base, FirebaseArea::MessageGroups, path, auth),
    }
}

/// The list data stored in `messageSummaries` for an email: where it came from, who sent
/// it, to whom, and when; neither its body nor its transcript.
pub struct MessageSummary {
    pub peer_addr: String,
    pub from: String,
    pub recipients: Vec<String>,
    pub received_at: Timestamp,
}

/// The record stored in `messageCleanup` for an email: only when it was received.
pub struct CleanupEntry {
    pub received_at: Timestamp,
}

/// An update of the group metadata in `messageGroups`: a change to the message count and,
/// where there is one, the key of the latest message.
pub struct GroupUpdate {
    pub count_change: i64,
    pub latest_message_id: Option<String>,
}

/// The summary of an email.
pub fn message_summary(email: &ReceivedEmail) -> (s: MessageSummary)
    ensures
        s.peer_addr@ == email.peer_addr@,
        s.from@ == email.from@,
        texts(s.recipients@) == texts(email.recipients@),
        s.received_at == email.received_at,
{
    MessageSummary {
        peer_addr: email.peer_addr.clone(),
        from: email.from.clone(),
        recipients: clone_texts(&email.recipients),
        received_at: email.received_at,
    }
}

/// The cleanup entry of an email.
pub fn cleanup_entry(email: &ReceivedEmail) -> (e: CleanupEntry)
    ensures
        e.received_at == email.received_at,
{
    CleanupEntry { received_at: email.received_at }
}

/// The group update after an email was stored under `key`: one more message, and `key` is
/// the latest.
pub fn group_update_after_save(key: &str) -> (u: GroupUpdate)
    ensures
        u.count_change == 1,
        u.latest_message_id matches Some(k) && k@ == key@,
{
    GroupUpdate { count_change: 1, latest_message_id: Some(String::from_str(key)) }
}

/// The group update after cleanup removed `removed` messages: the count goes down by that
/// many, and the latest key is left as it is. `None` where nothing was removed: the group
/// is then not written.
pub fn group_update_after_cleanup(removed: usize) -> (u: Option<GroupUpdate>)
    requires
        removed <= i64::MAX,
    ensures
        u is None <==> removed == 0,
        u matches Some(g) ==> g.count_change == -removed && g.latest_message_id is None,
{
    if removed == 0 {
        None
    } else {
        Some(GroupUpdate { count_change: -(removed as i64), latest_message_id: None })
    }
}

/// The records that cleanup deletes for one key: the full message, its summary, and its
/// cleanup entry, in that order.
pub open spec fn record_deletions_of(
    base: Seq<char>,
    path: Seq<char>,
    key: Seq<char>,
    auth: Option<Seq<char>>,
) -> Seq<Seq<char>> {
    seq![
        record_url_of(base, FirebaseArea::Messages, path, key, auth),
        record_url_of(base, FirebaseArea::MessageSummaries, path, key, auth),
        record_url_of(base, FirebaseArea::MessageCleanup, path, key, auth),
    ]
}

/// The URLs to delete for the expired key `key` (see [`record_deletions_of`]).
pub fn firebase_record_deletions(base: &str, path: &str, key: &str, auth: Option<&str>) -> (urls:
    Vec<String>)
    ensures
        texts(urls@) == record_deletions_of(base@, path@, key@, opt_text(auth)),
{
    let mut urls: Vec<String> = Vec::new();
    urls.push(firebase_record_url(base, FirebaseArea::Messages, path, key, auth));
    urls.push(firebase_record_url(base, FirebaseArea::MessageSummaries, path, key, auth));
    urls.push(firebase_record_url(base, FirebaseArea::MessageCleanup, path, key, auth));
    assert(texts(urls@) =~= record_deletions_of(base@, path@, key@, opt_text(auth)));
    urls
}

/// A cleanup entry is expired when its `received_at` reads as an instant before the
/// cutoff, in the order of `DateTime<Utc>`: by seconds, then by nanoseconds, a leap second
/// (nanoseconds from one billion on) lying between its second and the next. An entry whose
/// time cannot be read is kept.
pub open spec fn entry_is_expired(received_at: Option<(i64, u32)>, cutoff: Timestamp) -> bool {
    match received_at {
        Some((secs, nanos)) => (Timestamp { secs, nanos }).is_before(cutoff),
        None => false,
    }
}

/// Whether a cleanup entry whose `received_at` reads as `received_at` is expired.
pub fn entry_expired(received_at: Option<(i64, u32)>, cutoff: Timestamp) -> (r: bool)
    ensures
        r == entry_is_expired(received_at, cutoff),
{
    match received_at {
        Some((secs, nanos)) => (Timestamp { secs, nanos }).before(&cutoff),
        None => false,
    }
}

/// The instant read from a cleanup entry's `received_at` text, if it has one.
pub open spec fn entry_time(received_at: Option<Seq<char>>) -> Option<(i64, u32)> {
    match received_at {
        Some(text) => rfc3339_parse_of(text),
        None => None,
    }
}

/// The keys of the cleanup entries `(key, received_at)` that are expired, in order.
pub open spec fn expired_keys_of(
    entries: Seq<(Seq<char>, Option<Seq<char>>)>,
    cutoff: Timestamp,
) -> Seq<Seq<char>>
    decreases entries.len(),
{
    if entries.len() == 0 {
        Seq::empty()
    } else {
        let rest = expired_keys_of(entries.drop_last(), cutoff);
        if entry_is_expired(entry_time(entries.last().1), cutoff) {
            rest.push(entries.last().0)
        } else {
            rest
        }
    }
}

/// The view of cleanup entries.
pub open spec fn entries_view(entries: Seq<(String, Option<String>)>) -> Seq<
    (Seq<char>, Option<Seq<char>>),
> {
    entries.map_values(
        |e: (String, Option<String>)|
            (
                e.0@,
                match e.1 {
                    Some(t) => Some(t@),
                    None => None,
                },
            ),
    )
}

/// The keys of the cleanup entries whose `received_at` lies before `cutoff`.
pub fn firebase_expired_keys(entries: &Vec<(String, Option<String>)>, cutoff: Timestamp) -> (keys:
    Vec<String>)
    ensures
        texts(keys@) == expired_keys_of(entries_view(entries@), cutoff),
{
    let mut keys: Vec<String> = Vec::new();
    let mut i: usize = 0;
    while i < entries.len()
        invariant
            i <= entries.len(),
            texts(keys@) == expired_keys_of(entries_view(entries@).take(i as int), cutoff),
        decreases entries.len() - i,
    {
        let (key, received_at) = &entries[i];
        let time = match received_at {
            Some(text) => parse_rfc3339(text.as_str()),
            None => None,
        };
        let ghost ev = entries_view(entries@);
        assert(ev.take(i + 1).drop_last() =~= ev.take(i as int));
        assert(ev.take(i + 1).last() == ev[i as int]);
        assert(time == entry_time(ev[i as int].1));
        let ghost before = keys@;
        if entry_expired(time, cutoff) {
            keys.push(key.clone());
            assert(texts(keys@) =~= texts(before).push(key@));
        }
        i = i + 1;
    }
    assert(entries_view(entries@).take(entries.len() as int) =~= entries_view(entries@));
    keys
}

/// Law: cleanup picks exactly the keys whose entry was received before the cutoff.
pub proof fn law_expired_keys_exact(entries: Seq<(Seq<char>, Option<Seq<char>>)>, cutoff: Timestamp)
    ensures
        forall|k: Seq<char>|
            #[trigger] expired_keys_of(entries, cutoff).contains(k) <==> exists|i: int|
                0 <= i < entries.len() && entries[i].0 == k && entry_is_expired(
                    entry_time(entries[i].1),
                    cutoff,
                ),
    decreases entries.len(),
{
    if entries.len() > 0 {
        let init = entries.drop_last();
        law_expired_keys_exact(init, cutoff);
        let rest = expired_keys_of(init, cutoff);
        let n = entries.len() - 1;
        assert forall|k: Seq<char>|
            #[trigger] expired_keys_of(entries, cutoff).contains(k) <==> exists|i: int|
                0 <= i < entries.len() && entries[i].0 == k && entry_is_expired(
                    entry_time(entries[i].1),
                    cutoff,
                ) by {
            let here = entry_is_expired(entry_time(entries.last().1), cutoff);
            if expired_keys_of(entries, cutoff).contains(k) {
                if here && k == entries.last().0 {
                    assert(entries[n].0 == k);
                } else {
                    if here {
                        let j = choose|j: int| 0 <= j < rest.push(entries.last().0).len() && rest.push(entries.last().0)[j] == k;
                        assert(j < rest.len());
                        assert(rest[j] == k);
                        assert(rest.contains(k));
                    }
                    assert(rest.contains(k));
                    let i = choose|i: int|
                        0 <= i < init.len() && init[i].0 == k && entry_is_expired(
                            entry_time(init[i].1),
                            cutoff,
                        );
                    assert(entries[i] == init[i]);
                }
            }
            if exists|i: int|
                0 <= i < entries.len() && entries[i].0 == k && entry_is_expired(
                    entry_time(entries[i].1),
                    cutoff,
                ) {
                let i = choose|i: int|
                    0 <= i < entries.len() && entries[i].0 == k && entry_is_expired(
                        entry_time(entries[i].1),
                        cutoff,
                    );
                if i == n {
                    assert(entries.last() == entries[n]);
                    assert(rest.push(k)[rest.len() as int] == k);
                } else {
                    assert(init[i] == entries[i]);
                    assert(rest.contains(k));
                    let j = choose|j: int| 0 <= j < rest.len() && rest[j] == k;
                    if here {
                        assert(rest.push(entries.last().0)[j] == k);
                    }
                }
            }
        }
    }
}

} // verus!
