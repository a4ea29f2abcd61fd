//! Channels: where they come from, what they are called, and how one is found.
use crate::json;
use crate::json::JsonTree;
use crate::json::{
    flag_json, json_set, null_json, number_json, object_json, parse_json, signed_json, text_json,
    write_json,
};
use crate::message;
use crate::message::{get_text, Json, Timestamp};
use crate::text;
use crate::text::{contains_text, lower_text, split_once, starts_with, str_eq};
use crate::text_map::TextMap;
use vstd::prelude::*;

verus! {

/// A tracked channel with its metadata.
pub struct ChannelInfo {
    pub id: String,
    pub platform: String,
    pub display_name: Option<String>,
    /// What the platform says of the channel, as a JSON text.
    pub platform_meta: Option<String>,
    pub is_active: bool,
    pub created_at: Timestamp,
    pub last_activity_at: Timestamp,
}

/// A channel as it is stored. A column that cannot be read is none.
pub struct ChannelRow {
    pub id: Option<String>,
    pub platform: Option<String>,
    pub display_name: Option<String>,
    pub platform_meta: Option<String>,
    pub is_active: Option<i32>,
    pub created_at: Option<Timestamp>,
    pub last_activity_at: Option<Timestamp>,
}

/// `r` is the channel that a row stands for, read at a point in time.
pub open spec fn channel_from(row: ChannelRow, now: Timestamp, r: ChannelInfo) -> bool {
    &&& r.id@ == or_empty(row.id)
    &&& r.platform@ == or_empty(row.platform)
    &&& r.display_name == row.display_name
    &&& r.platform_meta == (match row.platform_meta {
        Some(s) => if json::parsed_json(s@) is Some {
            Some(s)
        } else {
            None
        },
        None => None,
    })
    &&& r.is_active == (row.is_active.unwrap_or(1) == 1)
    &&& r.created_at == row.created_at.unwrap_or(now)
    &&& r.last_activity_at == row.last_activity_at.unwrap_or(now)
}

/// The text of an optional string, empty where there is none.
pub open spec fn or_empty(o: Option<String>) -> Seq<char> {
    match o {
        Some(s) => s@,
        None => Seq::empty(),
    }
}

/// The string, empty where there is none.
pub fn text_or_empty(o: Option<String>) -> (r: String)
    ensures
        r@ == or_empty(o),
{
    match o {
        Some(s) => s,
        None => String::new(),
    }
}

/// The channel that a row stands for.
pub fn row_to_channel_info(row: ChannelRow, now: Timestamp) -> (r: ChannelInfo)
    ensures
        channel_from(row, now, r),
{
    let platform_meta = match row.platform_meta {
        Some(s) => if parse_json(s.as_str()).is_some() {
            Some(s)
        } else {
            None
        },
        None => None,
    };
    ChannelInfo {
        id: text_or_empty(row.id),
        platform: text_or_empty(row.platform),
        display_name: row.display_name,
        platform_meta,
        is_active: row.is_active.unwrap_or(1) == 1,
        created_at: row.created_at.unwrap_or(now),
        last_activity_at: row.last_activity_at.unwrap_or(now),
    }
}

/// How a channel matches a name, both in lower case.
#[derive(Clone, Copy, Debug, PartialEq, Eq, Structural)]
pub enum MatchKind {
    /// The channel has the name.
    Exact,
    /// The channel's name begins with it.
    Prefix,
    /// The channel's name holds it.
    Part,
    /// The channel's id holds it.
    Id,
}

/// The channel matches a name in a way.
pub open spec fn matches_as(c: ChannelInfo, name_lower: Seq<char>, kind: MatchKind) -> bool {
    match kind {
        MatchKind::Id => text::has_text(text::lower(c.id@), name_lower),
        _ => match c.display_name {
            Some(n) => match kind {
                MatchKind::Exact => text::lower(n@) == name_lower,
                MatchKind::Prefix => name_lower.is_prefix_of(text::lower(n@)),
                _ => text::has_text(text::lower(n@), name_lower),
            },
            None => false,
        },
    }
}

/// The position of the first channel that matches a name in a way, or the number
/// of channels.
pub open spec fn first_match(
    channels: Seq<ChannelInfo>,
    name_lower: Seq<char>,
    kind: MatchKind,
) -> nat
    decreases channels.len(),
{
    if channels.len() == 0 || matches_as(channels[0], name_lower, kind) {
        0
    } else {
        1 + first_match(channels.drop_first(), name_lower, kind)
    }
}

/// The channel that a name in lower case leads to: the first with that name, else
/// the first whose name begins with it, else the first whose name holds it, else
/// the first whose id does.
pub open spec fn found(channels: Seq<ChannelInfo>, name_lower: Seq<char>) -> Option<nat> {
    let exact = first_match(channels, name_lower, MatchKind::Exact);
    let prefix = first_match(channels, name_lower, MatchKind::Prefix);
    let part = first_match(channels, name_lower, MatchKind::Part);
    let id = first_match(channels, name_lower, MatchKind::Id);
    if exact < channels.len() {
        Some(exact)
    } else if prefix < channels.len() {
        Some(prefix)
    } else if part < channels.len() {
        Some(part)
    } else if id < channels.len() {
        Some(id)
    } else {
        None
    }
}

fn is_match(c: &ChannelInfo, name_lower: &str, kind: MatchKind) -> (r: bool)
    ensures
        r == matches_as(*c, name_lower@, kind),
{
    match kind {
        MatchKind::Id => contains_text(lower_text(c.id.as_str()).as_str(), name_lower),
        _ => match &c.display_name {
            Some(n) => {
                let lower = lower_text(n.as_str());
                match kind {
                    MatchKind::Exact => str_eq(lower.as_str(), name_lower),
                    MatchKind::Prefix => starts_with(lower.as_str(), name_lower),
                    _ => contains_text(lower.as_str(), name_lower),
                }
            },
            None => false,
        },
    }
}

fn find_as(channels: &Vec<ChannelInfo>, name_lower: &str, kind: MatchKind) -> (r: usize)
    ensures
        r == first_match(channels@, name_lower@, kind),
        r <= channels@.len(),
{
    let mut i: usize = 0;
    assert(channels@.skip(0) =~= channels@);
    while i < channels.len()
        invariant
            i <= channels@.len(),
            first_match(channels@, name_lower@, kind) == i + first_match(
                channels@.skip(i as int),
                name_lower@,
                kind,
            ),
        decreases channels@.len() - i,
    {
        proof {
            assert(channels@.skip(i as int)[0] == channels@[i as int]);
            assert(channels@.skip(i as int).drop_first() =~= channels@.skip(i + 1));
        }
        if is_match(&channels[i], name_lower, kind) {
            return i;
        }
        i = i + 1;
    }
    i
}

/// The channel that a name in lower case leads to.
pub fn find_by_lower_name(channels: &Vec<ChannelInfo>, name_lower: &str) -> (r: Option<usize>)
    ensures
        match r {
            Some(i) => i < channels@.len() && found(channels@, name_lower@) == Some(i as nat),
            None => found(channels@, name_lower@) is None,
        },
{
    let n: usize = channels.len();
    let exact: usize = find_as(channels, name_lower, MatchKind::Exact);
    if exact < n {
        return Some(exact);
    }
    let prefix: usize = find_as(channels, name_lower, MatchKind::Prefix);
    if prefix < n {
        return Some(prefix);
    }
    let part: usize = find_as(channels, name_lower, MatchKind::Part);
    if part < n {
        return Some(part);
    }
    let id: usize = find_as(channels, name_lower, MatchKind::Id);
    if id < n {
        return Some(id);
    }
    None
}

/// Find a channel by partial name or ID match.
///
/// Match priority: exact name > prefix > contains > channel ID contains.
pub fn find_by_name(channels: &Vec<ChannelInfo>, name: &str) -> (r: Option<usize>)
    ensures
        match r {
            Some(i) => i < channels@.len() && found(channels@, text::lower(name@)) == Some(
                i as nat,
            ),
            None => found(channels@, text::lower(name@)) is None,
        },
{
    let name_lower = lower_text(name);
    find_by_lower_name(channels, name_lower.as_str())
}

proof fn lemma_first_match(channels: Seq<ChannelInfo>, name_lower: Seq<char>, kind: MatchKind, k: int)
    requires
        0 <= k < channels.len(),
        matches_as(channels[k], name_lower, kind),
    ensures
        first_match(channels, name_lower, kind) <= k,
    decreases channels.len(),
{
    if !matches_as(channels[0], name_lower, kind) {
        assert(channels.drop_first()[k - 1] == channels[k]);
        lemma_first_match(channels.drop_first(), name_lower, kind, k - 1);
    }
}

proof fn lemma_first_match_matches(
    channels: Seq<ChannelInfo>,
    name_lower: Seq<char>,
    kind: MatchKind,
)
    requires
        first_match(channels, name_lower, kind) < channels.len(),
    ensures
        matches_as(
            channels[first_match(channels, name_lower, kind) as int],
            name_lower,
            kind,
        ),
    decreases channels.len(),
{
    if !matches_as(channels[0], name_lower, kind) {
        lemma_first_match_matches(channels.drop_first(), name_lower, kind);
    }
}

/// A channel whose id holds a name as it is written is found by that name, for an id
/// of ASCII characters.
pub proof fn law_id_is_found(channels: Seq<ChannelInfo>, name: Seq<char>, k: int)
    requires
        0 <= k < channels.len(),
        text::has_text(channels[k].id@, name),
        text::all_ascii(channels[k].id@),
    ensures
        found(channels, text::lower(name)) is Some,
{
    let id = channels[k].id@;
    let i = choose|i: int| text::matches_at(id, name, i);
    assert forall|j: int| 0 <= j < name.len() implies (#[trigger] name[j]) as u32 <= 0x7f by {
        assert(id.subrange(i, i + name.len())[j] == id[i + j]);
    }
    let a = text::lower(id);
    let b = text::lower(name);
    assert forall|j: int| 0 <= j < b.len() implies b[j] == #[trigger] a[i + j] by {
        assert(id.subrange(i, i + name.len())[j] == id[i + j]);
    }
    assert(a.subrange(i, i + b.len()) =~= b);
    assert(text::matches_at(a, b, i));
    law_exact_name_wins(channels, b, MatchKind::Id, k);
}

/// A channel that has the name exactly is preferred to every other match, and a
/// channel is found wherever one matches in any way.
pub proof fn law_exact_name_wins(
    channels: Seq<ChannelInfo>,
    name_lower: Seq<char>,
    kind: MatchKind,
    k: int,
)
    requires
        0 <= k < channels.len(),
        matches_as(channels[k], name_lower, kind),
    ensures
        found(channels, name_lower) is Some,
        kind == MatchKind::Exact ==> matches_as(
            channels[found(channels, name_lower)->0 as int],
            name_lower,
            MatchKind::Exact,
        ),
{
    lemma_first_match(channels, name_lower, kind, k);
    if kind == MatchKind::Exact {
        lemma_first_match_matches(channels, name_lower, kind);
    }
}

/// The platform of a channel: what its id says before the first colon.
pub open spec fn platform_of(channel_id: Seq<char>) -> Seq<char> {
    channel_id.take(text::index_of_char(channel_id, ':') as int)
}

/// Extract the platform name from a channel ID.
pub fn extract_platform(channel_id: &str) -> (r: String)
    ensures
        r@ == platform_of(channel_id@),
{
    proof {
        text::lemma_index_of_char(channel_id@, ':');
    }
    match split_once(channel_id, ':') {
        Some(p) => p.0,
        None => {
            assert(channel_id@.take(channel_id@.len() as int) =~= channel_id@);
            channel_id.to_owned()
        },
    }
}

/// The best display name that metadata offers.
pub open spec fn display_name_of(
    platform: Seq<char>,
    meta: Map<Seq<char>, message::JsonView>,
) -> Option<Seq<char>> {
    if platform == "discord"@ {
        message::meta_text(meta, "discord_channel_name"@)
    } else if platform == "slack"@ {
        message::meta_text(meta, "slack_channel_name"@)
    } else {
        None
    }
}

/// Pull the best display name from inbound message metadata.
pub fn extract_display_name(platform: &str, meta: &TextMap<Json>) -> (r: Option<String>)
    ensures
        text::opt_text(r) == display_name_of(platform@, meta@),
{
    if str_eq(platform, "discord") {
        get_text(meta, "discord_channel_name")
    } else if str_eq(platform, "slack") {
        get_text(meta, "slack_channel_name")
    } else {
        None
    }
}

/// The metadata worth keeping, by platform.
pub open spec fn kept_keys(platform: Seq<char>) -> Seq<Seq<char>> {
    if platform == "discord"@ {
        seq![
            "discord_guild_id"@,
            "discord_guild_name"@,
            "discord_channel_id"@,
            "discord_is_thread"@,
            "discord_parent_channel_id"@,
        ]
    } else if platform == "slack"@ {
        seq!["slack_workspace_id"@, "slack_channel_id"@, "slack_thread_ts"@]
    } else {
        Seq::empty()
    }
}

/// The entries of a map under given keys, in the order of the keys.
pub open spec fn kept(keys: Seq<Seq<char>>, meta: Map<Seq<char>, message::JsonView>) -> Seq<
    (Seq<char>, message::JsonView),
>
    decreases keys.len(),
{
    if keys.len() == 0 {
        Seq::empty()
    } else {
        let before = kept(keys.drop_last(), meta);
        if meta.contains_key(keys.last()) {
            before.push((keys.last(), meta[keys.last()]))
        } else {
            before
        }
    }
}

/// The entries of an object.
pub open spec fn entry_views(entries: Seq<(String, Json)>) -> Seq<(Seq<char>, message::JsonView)> {
    Seq::new(entries.len(), |i: int| (entries[i].0@, entries[i].1@))
}

fn copy_entry(v: &Json) -> (r: Json)
    ensures
        r@ == v@,
{
    match v {
        Json::Null => Json::Null,
        Json::Bool(b) => Json::Bool(*b),
        Json::PosInt(n) => Json::PosInt(*n),
        Json::NegInt(n) => Json::NegInt(*n),
        Json::Text(s) => Json::Text(s.clone()),
        Json::Raw(s) => Json::Raw(s.clone()),
    }
}

fn keep(out: &mut Vec<(String, Json)>, meta: &TextMap<Json>, key: &str)
    ensures
        entry_views(final(out)@) == (if meta@.contains_key(key@) {
            entry_views(old(out)@).push((key@, meta@[key@]))
        } else {
            entry_views(old(out)@)
        }),
{
    if let Some(v) = meta.get(key) {
        out.push((key.to_owned(), copy_entry(v)));
        assert(entry_views(out@) =~= entry_views(old(out)@).push(
            (key@, meta@[key@]),
        ));
    }
}

/// The entries of the metadata that are worth keeping.
pub fn platform_meta_entries(platform: &str, meta: &TextMap<Json>) -> (r: Vec<(String, Json)>)
    ensures
        entry_views(r@) == kept(kept_keys(platform@), meta@),
{
    let mut out: Vec<(String, Json)> = Vec::new();
    proof {
        reveal_with_fuel(kept, 6);
        assert(entry_views(out@) =~= Seq::<(Seq<char>, message::JsonView)>::empty());
    }
    if str_eq(platform, "discord") {
        keep(&mut out, meta, "discord_guild_id");
        keep(&mut out, meta, "discord_guild_name");
        keep(&mut out, meta, "discord_channel_id");
        keep(&mut out, meta, "discord_is_thread");
        keep(&mut out, meta, "discord_parent_channel_id");
        proof {
            let k = kept_keys(platform@);
            assert(k.drop_last() =~= k.take(4));
            assert(k.take(4).drop_last() =~= k.take(3));
            assert(k.take(3).drop_last() =~= k.take(2));
            assert(k.take(2).drop_last() =~= k.take(1));
            assert(k.take(1).drop_last() =~= Seq::<Seq<char>>::empty());
        }
    } else if str_eq(platform, "slack") {
        keep(&mut out, meta, "slack_workspace_id");
        keep(&mut out, meta, "slack_channel_id");
        keep(&mut out, meta, "slack_thread_ts");
        proof {
            let k = kept_keys(platform@);
            assert(k.drop_last() =~= k.take(2));
            assert(k.take(2).drop_last() =~= k.take(1));
            assert(k.take(1).drop_last() =~= Seq::<Seq<char>>::empty());
        }
    }
    out
}

/// What a metadata value holds. A raw value is read, and is null where it cannot be.
pub open spec fn tree_of(v: message::JsonView) -> JsonTree {
    match v {
        message::JsonView::Null => JsonTree::Null,
        message::JsonView::Bool(b) => JsonTree::Flag(b),
        message::JsonView::PosInt(n) => JsonTree::Unsigned(n),
        message::JsonView::NegInt(n) => if n < 0 {
            JsonTree::Negative(n)
        } else {
            JsonTree::Unsigned(n as u64)
        },
        message::JsonView::Text(s) => JsonTree::Text(s),
        message::JsonView::Raw(s) => match json::parsed_json(s) {
            Some(tree) => tree,
            None => JsonTree::Null,
        },
    }
}

/// The object that entries make. A later entry replaces an earlier one under the same
/// key.
pub open spec fn entry_map(entries: Seq<(Seq<char>, message::JsonView)>) -> Map<
    Seq<char>,
    JsonTree,
>
    decreases entries.len(),
{
    if entries.len() == 0 {
        json::no_entries()
    } else {
        entry_map(entries.drop_last()).insert(entries.last().0, tree_of(entries.last().1))
    }
}

fn value_of(v: &Json) -> (r: serde_json::Value)
    ensures
        json::json_tree(r) == tree_of(v@),
{
    match v {
        Json::Null => null_json(),
        Json::Bool(b) => flag_json(*b),
        Json::PosInt(n) => number_json(*n),
        Json::NegInt(n) => signed_json(*n),
        Json::Text(s) => text_json(s.as_str()),
        Json::Raw(s) => match parse_json(s.as_str()) {
            Some(value) => value,
            None => null_json(),
        },
    }
}

/// Writes an object with the given entries.
fn write_object(entries: &Vec<(String, Json)>) -> (r: String)
    ensures
        json::writes(r@, JsonTree::Object(entry_map(entry_views(entries@)))),
{
    let mut object = object_json();
    let n: usize = entries.len();
    let mut i: usize = 0;
    let ghost all = entry_views(entries@);
    assert(entry_map(all.take(0)) == json::no_entries());
    while i < n
        invariant
            n == entries@.len(),
            i <= n,
            all == entry_views(entries@),
            json::json_tree(object) == JsonTree::Object(entry_map(all.take(i as int))),
        decreases n - i,
    {
        proof {
            assert(all.take(i + 1).drop_last() =~= all.take(i as int));
            assert(all.take(i + 1).last() == all[i as int]);
        }
        json_set(&mut object, entries[i].0.as_str(), value_of(&entries[i].1));
        i = i + 1;
    }
    assert(all.take(n as int) =~= all);
    write_json(&object)
}

/// Build a JSON blob of platform-specific metadata worth persisting.
pub fn extract_platform_meta(platform: &str, meta: &TextMap<Json>) -> (r: Option<String>)
    ensures
        ({
            let entries = kept(kept_keys(platform@), meta@);
            match r {
                Some(s) => entries.len() > 0 && json::writes(
                    s@,
                    JsonTree::Object(entry_map(entries)),
                ),
                None => entries.len() == 0,
            }
        }),
{
    let entries = platform_meta_entries(platform, meta);
    assert(entries@.len() == entry_views(entries@).len());
    if entries.len() == 0 {
        None
    } else {
        Some(write_object(&entries))
    }
}

/// A name matches a channel by its own name: exactly where both are the same, as a prefix
/// where it starts so, as a part where it holds it. A channel without a name matches by
/// its id alone.
pub proof fn law_names_match(c: ChannelInfo, a: Seq<char>, q: Seq<char>, b: Seq<char>)
    ensures
        c.display_name matches Some(n) ==> (text::lower(n@) == a + q + b ==> matches_as(
            c,
            q,
            MatchKind::Part,
        )),
        c.display_name matches Some(n) ==> (text::lower(n@) == q + b ==> matches_as(
            c,
            q,
            MatchKind::Prefix,
        )),
        c.display_name matches Some(n) ==> (matches_as(c, q, MatchKind::Exact) <==> text::lower(n@)
            == q),
        c.display_name matches Some(n) ==> (matches_as(c, q, MatchKind::Prefix)
            ==> text::lower(n@).len() >= q.len() && text::lower(n@).take(q.len() as int) == q),
        c.display_name is None ==> !matches_as(c, q, MatchKind::Exact) && !matches_as(
            c,
            q,
            MatchKind::Prefix,
        ) && !matches_as(c, q, MatchKind::Part),
        text::lower(c.id@) == a + q + b ==> matches_as(c, q, MatchKind::Id),
{
    let s = a + q + b;
    assert(s.subrange(a.len() as int, a.len() as int + q.len()) == q);
    assert(text::matches_at(s, q, a.len() as int));
    assert(q.is_prefix_of(q + b));
    if let Some(n) = c.display_name {
        if matches_as(c, q, MatchKind::Prefix) {
            assert(text::lower(n@).take(q.len() as int) == q);
        }
    }
}

/// A better match comes first: the first channel with the name, else the first whose name
/// starts with it, else the first whose name holds it, else the first whose id does. No
/// channel is found where none matches.
pub proof fn law_better_match_wins(channels: Seq<ChannelInfo>, q: Seq<char>, k: int)
    requires
        0 <= k < channels.len(),
    ensures
        found(channels, q) matches Some(f) ==> {
            &&& f < channels.len()
            &&& (matches_as(channels[k], q, MatchKind::Exact) ==> f <= k && matches_as(
                channels[f as int],
                q,
                MatchKind::Exact,
            ))
            &&& (matches_as(channels[k], q, MatchKind::Prefix) ==> matches_as(
                channels[f as int],
                q,
                MatchKind::Exact,
            ) || (f <= k && matches_as(channels[f as int], q, MatchKind::Prefix)))
            &&& (matches_as(channels[k], q, MatchKind::Part) ==> matches_as(
                channels[f as int],
                q,
                MatchKind::Exact,
            ) || matches_as(channels[f as int], q, MatchKind::Prefix) || (f <= k && matches_as(
                channels[f as int],
                q,
                MatchKind::Part,
            )))
            &&& (matches_as(channels[f as int], q, MatchKind::Exact) || matches_as(
                channels[f as int],
                q,
                MatchKind::Prefix,
            ) || matches_as(channels[f as int], q, MatchKind::Part) || matches_as(
                channels[f as int],
                q,
                MatchKind::Id,
            ))
        },
        found(channels, q) is None ==> !matches_as(channels[k], q, MatchKind::Exact) && !matches_as(
            channels[k],
            q,
            MatchKind::Prefix,
        ) && !matches_as(channels[k], q, MatchKind::Part) && !matches_as(
            channels[k],
            q,
            MatchKind::Id,
        ),
{
    lemma_kind(channels, q, MatchKind::Exact, k);
    lemma_kind(channels, q, MatchKind::Prefix, k);
    lemma_kind(channels, q, MatchKind::Part, k);
    lemma_kind(channels, q, MatchKind::Id, k);
}

proof fn lemma_kind(channels: Seq<ChannelInfo>, q: Seq<char>, kind: MatchKind, k: int)
    requires
        0 <= k < channels.len(),
    ensures
        matches_as(channels[k], q, kind) ==> first_match(channels, q, kind) <= k,
        first_match(channels, q, kind) < channels.len() ==> matches_as(
            channels[first_match(channels, q, kind) as int],
            q,
            kind,
        ),
{
    if matches_as(channels[k], q, kind) {
        lemma_first_match(channels, q, kind, k);
    }
    if first_match(channels, q, kind) < channels.len() {
        lemma_first_match_matches(channels, q, kind);
    }
}

/// The platform of a channel is what stands in front of the first colon of its id, and the
/// whole id where it has none.
pub proof fn law_platform_stands_in_front(platform: Seq<char>, rest: Seq<char>)
    requires
        !platform.contains(':'),
    ensures
        platform_of(platform + ":"@ + rest) == platform,
        platform_of(platform) == platform,
{
    reveal_strlit(":");
    assert(":"@ == seq![':']);
    let s = platform + ":"@ + rest;
    let n = platform.len() as int;
    assert forall|i: int| 0 <= i < n implies platform[i] != ':' by {
        if platform[i] == ':' {
            assert(platform.contains(':'));
        }
    }
    assert(s[n] == ':');
    text::lemma_index_of_char_unique(s, ':', n);
    text::lemma_index_of_char_unique(platform, ':', n);
    assert(s.take(n) == platform);
    assert(platform.take(n) == platform);
}

/// An entry of the metadata is kept where its key is wanted and it is there, with its
/// value, in the order of the keys.
pub proof fn law_wanted_entries_are_kept(
    keys: Seq<Seq<char>>,
    key: Seq<char>,
    meta: Map<Seq<char>, message::JsonView>,
)
    ensures
        kept(Seq::empty(), meta).len() == 0,
        meta.contains_key(key) ==> kept(keys.push(key), meta) == kept(keys, meta).push(
            (key, meta[key]),
        ),
        !meta.contains_key(key) ==> kept(keys.push(key), meta) == kept(keys, meta),
{
    assert(keys.push(key).drop_last() == keys);
}

/// A channel of Discord keeps its guild, its channel and its thread, one of Slack its
/// workspace, its channel and its thread; others keep nothing. Each takes its name from
/// its own metadata.
pub proof fn law_platforms_keep_their_own(meta: Map<Seq<char>, message::JsonView>)
    ensures
        kept_keys("discord"@).contains("discord_guild_id"@),
        kept_keys("discord"@).contains("discord_guild_name"@),
        kept_keys("discord"@).contains("discord_channel_id"@),
        kept_keys("discord"@).contains("discord_is_thread"@),
        kept_keys("discord"@).contains("discord_parent_channel_id"@),
        kept_keys("slack"@).contains("slack_workspace_id"@),
        kept_keys("slack"@).contains("slack_channel_id"@),
        kept_keys("slack"@).contains("slack_thread_ts"@),
        kept_keys("discord"@).len() == 5 && kept_keys("slack"@).len() == 3,
        forall|p: Seq<char>|
            p != "discord"@ && p != "slack"@ ==> (#[trigger] kept_keys(p)).len() == 0
                && display_name_of(p, meta) is None,
        display_name_of("discord"@, meta) == message::meta_text(meta, "discord_channel_name"@),
        display_name_of("slack"@, meta) == message::meta_text(meta, "slack_channel_name"@),
{
    reveal_strlit("discord");
    reveal_strlit("slack");
    assert("discord"@.len() != "slack"@.len());
    let d = kept_keys("discord"@);
    assert(d[0] == "discord_guild_id"@ && d[1] == "discord_guild_name"@ && d[2]
        == "discord_channel_id"@ && d[3] == "discord_is_thread"@ && d[4]
        == "discord_parent_channel_id"@);
    let s = kept_keys("slack"@);
    assert(s[0] == "slack_workspace_id"@ && s[1] == "slack_channel_id"@ && s[2]
        == "slack_thread_ts"@);
}

/// An object holds what its entries say: the last entry under a key counts, and keys
/// without an entry are not there. A value is written as what it is.
pub proof fn law_object_holds_its_entries(
    entries: Seq<(Seq<char>, message::JsonView)>,
    key: Seq<char>,
    value: message::JsonView,
    other: Seq<char>,
)
    requires
        other != key,
    ensures
        entry_map(entries.push((key, value))).contains_key(key),
        value matches message::JsonView::Text(s) ==> entry_map(entries.push((key, value)))[key]
            == JsonTree::Text(s),
        value matches message::JsonView::Bool(b) ==> entry_map(entries.push((key, value)))[key]
            == JsonTree::Flag(b),
        value matches message::JsonView::PosInt(n) ==> entry_map(entries.push((key, value)))[key]
            == JsonTree::Unsigned(n),
        value matches message::JsonView::NegInt(n) ==> (n < 0 ==> entry_map(
            entries.push((key, value)),
        )[key] == JsonTree::Negative(n)),
        value is Null ==> entry_map(entries.push((key, value)))[key] == JsonTree::Null,
        entry_map(entries.push((key, value))).contains_key(other) <==> entry_map(
            entries,
        ).contains_key(other),
        entry_map(entries).contains_key(other) ==> entry_map(entries.push((key, value)))[other]
            == entry_map(entries)[other],
        !entry_map(Seq::empty()).contains_key(key),
{
    assert(entries.push((key, value)).drop_last() == entries);
}

/// A channel is read from its row: it is active unless the row says otherwise, metadata
/// that is no JSON is left out, and times that are not there are those of the reading.
pub proof fn law_channel_is_read(row: ChannelRow, now: Timestamp, r: ChannelInfo)
    requires
        channel_from(row, now, r),
    ensures
        row.id matches Some(x) ==> r.id@ == x@,
        row.platform matches Some(x) ==> r.platform@ == x@,
        r.display_name == row.display_name,
        r.is_active <==> row.is_active is None || row.is_active->0 == 1,
        row.created_at matches Some(t) ==> r.created_at == t,
        row.created_at is None ==> r.created_at == now,
        row.last_activity_at matches Some(t) ==> r.last_activity_at == t,
        row.last_activity_at is None ==> r.last_activity_at == now,
        row.platform_meta matches Some(s) ==> (r.platform_meta == Some(s) <==> json::parsed_json(s@)
            is Some),
        r.platform_meta is Some ==> r.platform_meta == row.platform_meta,
{
}

} // verus!
