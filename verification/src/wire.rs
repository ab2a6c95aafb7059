//! How the records of the daemon are shown to a session, as JSON.

use serde_json::Value;
use vstd::prelude::*;

use crate::assoc::{AssocMap, StrSet};
use crate::buffer::MsgEvent;
use crate::consent::{ConsentPost, GuildConsent, GuildView, PostView};
use crate::json;
use crate::json::{docs, having, json_of, member, obj, opt_str, strs, Json};
use crate::persona::{Behavior, BehaviorView, RespondTo};
use crate::rows::lemma_next_is_fresh;
use crate::text::{decimal, opt_text, texts};

verus! {

/// A message as a session sees it. Its scope stays off the wire.
pub open spec fn event_json(e: MsgEvent) -> Json {
    let a = having(obj(), "seq"@, Json::Number(decimal(e.seq as nat)));
    let b = having(a, "message_id"@, Json::Str(e.message_id@));
    let c = having(b, "channel_id"@, Json::Str(e.channel_id@));
    let d = having(c, "channel_name"@, opt_str(opt_text(e.channel_name)));
    let f = having(d, "guild_name"@, opt_str(opt_text(e.guild_name)));
    let g = having(f, "is_dm"@, Json::Bool(e.is_dm));
    let h = having(g, "author_id"@, Json::Str(e.author_id@));
    let i = having(h, "author_name"@, Json::Str(e.author_name@));
    let j = having(i, "author_is_bot"@, Json::Bool(e.author_is_bot));
    let k = having(j, "content"@, Json::Str(e.content@));
    let l = having(k, "timestamp"@, Json::Str(e.timestamp@));
    let m = having(l, "mentions_me"@, Json::Bool(e.mentions_me));
    having(m, "reply_to_message_id"@, opt_str(opt_text(e.reply_to_message_id)))
}

/// A message as a session sees it.
pub fn event_value(e: &MsgEvent) -> (v: Value)
    ensures
        json_of(v) == event_json(*e),
{
    let v = json::with(json::object(), "seq", json::unsigned(e.seq));
    let v = json::with_text(v, "message_id", e.message_id.as_str());
    let v = json::with_text(v, "channel_id", e.channel_id.as_str());
    let v = json::with(v, "channel_name", json::opt_string(&e.channel_name));
    let v = json::with(v, "guild_name", json::opt_string(&e.guild_name));
    let v = json::with(v, "is_dm", json::boolean(e.is_dm));
    let v = json::with_text(v, "author_id", e.author_id.as_str());
    let v = json::with_text(v, "author_name", e.author_name.as_str());
    let v = json::with(v, "author_is_bot", json::boolean(e.author_is_bot));
    let v = json::with_text(v, "content", e.content.as_str());
    let v = json::with_text(v, "timestamp", e.timestamp.as_str());
    let v = json::with(v, "mentions_me", json::boolean(e.mentions_me));
    json::with(v, "reply_to_message_id", json::opt_string(&e.reply_to_message_id))
}

/// A row of messages as a session sees them.
pub open spec fn event_docs(events: Seq<MsgEvent>) -> Seq<Json> {
    events.map_values(|e: MsgEvent| event_json(e))
}

/// A row of messages as a session sees them.
pub fn event_values(events: &Vec<MsgEvent>) -> (v: Value)
    ensures
        json_of(v) == Json::Array(event_docs(events@)),
{
    let mut out: Vec<Value> = Vec::new();
    let mut i: usize = 0;
    while i < events.len()
        invariant
            i <= events@.len(),
            docs(out@) == event_docs(events@).take(i as int),
        decreases events@.len() - i,
    {
        let ghost before = out@;
        out.push(event_value(&events[i]));
        assert(docs(out@) =~= docs(before).push(event_json(events@[i as int])));
        i += 1;
    }
    assert(docs(out@) =~= event_docs(events@));
    json::array(out)
}

/// The scope of a message stays off the wire: a session sees no member for it,
/// and the same document whatever the scope is.
pub proof fn scope_stays_off_the_wire(e: MsgEvent, other: crate::scope::Scope)
    ensures
        member(event_json(e), "scope"@) is None,
        event_json(e) == event_json(MsgEvent { scope: other, ..e }),
{
    reveal_strlit("scope");
    reveal_strlit("seq");
    reveal_strlit("message_id");
    reveal_strlit("channel_id");
    reveal_strlit("channel_name");
    reveal_strlit("guild_name");
    reveal_strlit("is_dm");
    reveal_strlit("author_id");
    reveal_strlit("author_name");
    reveal_strlit("author_is_bot");
    reveal_strlit("content");
    reveal_strlit("timestamp");
    reveal_strlit("mentions_me");
    reveal_strlit("reply_to_message_id");
    assert("scope"@.len() == 5);
    assert("is_dm"@[0] == 'i' && "scope"@[0] == 's');
}

/// How a setting of who is answered is written.
pub open spec fn respond_name(r: RespondTo) -> Seq<char> {
    match r {
        RespondTo::All => "all"@,
        RespondTo::Mentions => "mentions"@,
    }
}

/// The behavior settings of a scope.
pub open spec fn behavior_json(b: BehaviorView) -> Json {
    let w = having(obj(), "watched_channels"@, Json::Array(strs(b.watched_channels)));
    let r = having(w, "respond_to"@, Json::Str(respond_name(b.respond_to)));
    having(r, "idle_wake_minutes"@, Json::Number(decimal(b.idle_wake_minutes as nat)))
}

/// The behavior settings of a scope.
pub fn behavior_value(b: &Behavior) -> (v: Value)
    ensures
        json_of(v) == behavior_json(b@),
{
    let v = json::with(
        json::object(),
        "watched_channels",
        json::text_array(&b.watched_channels),
    );
    let name = match b.respond_to {
        RespondTo::All => "all",
        RespondTo::Mentions => "mentions",
    };
    let v = json::with_text(v, "respond_to", name);
    json::with(v, "idle_wake_minutes", json::unsigned(b.idle_wake_minutes))
}

/// A JSON array that lists each member of a set once, in some order.
pub open spec fn lists(doc: Json, members: Set<Seq<char>>) -> bool {
    exists|names: Seq<Seq<char>>| #[trigger]
        is_listing(names, members) && doc == Json::Array(strs(names))
}

/// Each member of a set once, in some order.
pub open spec fn is_listing(names: Seq<Seq<char>>, members: Set<Seq<char>>) -> bool {
    names.no_duplicates() && names.to_set() == members
}

fn set_value(s: &StrSet) -> (v: Value)
    ensures
        lists(json_of(v), s@),
{
    let n: usize = s.len();
    let mut names: Vec<String> = Vec::new();
    let mut i: usize = 0;
    while i < n
        invariant
            i <= n == s.items().len(),
            texts(names@) == s.items().take(i as int),
        decreases n - i,
    {
        let ghost before = names@;
        names.push(s.item_at(i).clone());
        assert(texts(names@) =~= texts(before).push(s.items()[i as int]));
        i += 1;
    }
    proof {
        assert(texts(names@) =~= s.items());
        assert(s.items().to_set() =~= s@);
        assert(is_listing(texts(names@), s@));
    }
    json::text_array(&names)
}

/// An object with one string member for each entry of a map.
pub open spec fn text_map(m: Map<Seq<char>, Seq<char>>) -> Json {
    Json::Object(m.map_values(|s: Seq<char>| Json::Str(s)))
}

fn map_value(m: &AssocMap<String, String>) -> (v: Value)
    ensures
        json_of(v) == text_map(m@),
{
    let n: usize = m.len();
    let ghost keys = m.keys();
    let mut v = json::object();
    let mut i: usize = 0;
    while i < n
        invariant
            i <= n == keys.len(),
            keys == m.keys(),
            m.values().len() == n,
            keys.no_duplicates(),
            forall|j: int| 0 <= j < keys.len() ==> m@[#[trigger] keys[j]] == m.values()[j]@,
            json_of(v) is Object,
            forall|k: Seq<char>| #[trigger]
                json_of(v)->Object_0.contains_key(k) <==> keys.take(i as int).contains(k),
            forall|k: Seq<char>| #[trigger]
                json_of(v)->Object_0.contains_key(k) ==> json_of(v)->Object_0[k] == Json::Str(
                    m@[k],
                ),
        decreases n - i,
    {
        let ghost before = json_of(v)->Object_0;
        let key = m.key_at(i);
        let name = m.value_at(i);
        v = json::with_text(v, key.as_str(), name.as_str());
        proof {
            lemma_next_is_fresh(keys, i as int);
            assert(m@[keys[i as int]] == name@);
            assert forall|k: Seq<char>| #[trigger]
                json_of(v)->Object_0.contains_key(k) implies json_of(v)->Object_0[k] == Json::Str(
                m@[k],
            ) by {
                if k != key@ {
                    assert(before.contains_key(k));
                }
            }
        }
        i += 1;
    }
    proof {
        assert(keys.take(i as int) =~= keys);
        assert(json_of(v)->Object_0 =~= m@.map_values(|s: Seq<char>| Json::Str(s)));
    }
    v
}

/// A consent post, or null where there is none.
pub open spec fn post_json(p: Option<PostView>) -> Json {
    match p {
        Some(q) => having(
            having(obj(), "channel_id"@, Json::Str(q.channel_id)),
            "message_id"@,
            Json::Str(q.message_id),
        ),
        None => Json::Null,
    }
}

fn post_value(p: &Option<ConsentPost>) -> (v: Value)
    ensures
        json_of(v) == post_json(crate::consent::opt_post(*p)),
{
    match p {
        Some(q) => {
            let v = json::with_text(json::object(), "channel_id", q.channel_id.as_str());
            json::with_text(v, "message_id", q.message_id.as_str())
        },
        None => json::null(),
    }
}

/// The consent record of a server, with its two sets listed in some order.
pub open spec fn guild_json(active: Json, g: GuildView, grandfathered: Json) -> Json {
    let a = having(obj(), "active_channels"@, active);
    let u = having(a, "opted_users"@, text_map(g.opted_users));
    let p = having(u, "consent_post"@, post_json(g.consent_post));
    having(p, "grandfathered"@, grandfathered)
}

/// A document shows the consent record of a server.
pub open spec fn shows_guild(doc: Json, g: GuildView) -> bool {
    exists|active: Json, grandfathered: Json| #[trigger]
        guild_json(active, g, grandfathered) == doc && lists(active, g.active_channels) && lists(
            grandfathered,
            g.grandfathered,
        )
}

/// The consent record of a server.
pub fn guild_value(g: &GuildConsent) -> (v: Value)
    ensures
        shows_guild(json_of(v), g@),
{
    let active = set_value(&g.active_channels);
    let grandfathered = set_value(&g.grandfathered);
    let ghost a = json_of(active);
    let ghost f = json_of(grandfathered);
    let v = json::with(json::object(), "active_channels", active);
    let v = json::with(v, "opted_users", map_value(&g.opted_users));
    let v = json::with(v, "consent_post", post_value(&g.consent_post));
    let v = json::with(v, "grandfathered", grandfathered);
    assert(guild_json(a, g@, f) == json_of(v));
    v
}

/// What a session sees of a message: its number and ids, where it stands, who
/// wrote it, what and when, whether it mentions the bot and what it answers;
/// null where there is no name or nothing answered. There is nothing else.
pub proof fn messages_show_what_they_hold(e: MsgEvent, key: Seq<char>)
    ensures
        ({
            let doc = event_json(e);
            &&& member(doc, "seq"@) == Some(Json::Number(decimal(e.seq as nat)))
            &&& member(doc, "message_id"@) == Some(Json::Str(e.message_id@))
            &&& member(doc, "channel_id"@) == Some(Json::Str(e.channel_id@))
            &&& member(doc, "channel_name"@) == Some(
                match e.channel_name {
                    Some(n) => Json::Str(n@),
                    None => Json::Null,
                },
            )
            &&& member(doc, "guild_name"@) == Some(
                match e.guild_name {
                    Some(n) => Json::Str(n@),
                    None => Json::Null,
                },
            )
            &&& member(doc, "is_dm"@) == Some(Json::Bool(e.is_dm))
            &&& member(doc, "author_id"@) == Some(Json::Str(e.author_id@))
            &&& member(doc, "author_name"@) == Some(Json::Str(e.author_name@))
            &&& member(doc, "author_is_bot"@) == Some(Json::Bool(e.author_is_bot))
            &&& member(doc, "content"@) == Some(Json::Str(e.content@))
            &&& member(doc, "timestamp"@) == Some(Json::Str(e.timestamp@))
            &&& member(doc, "mentions_me"@) == Some(Json::Bool(e.mentions_me))
            &&& member(doc, "reply_to_message_id"@) == Some(
                match e.reply_to_message_id {
                    Some(n) => Json::Str(n@),
                    None => Json::Null,
                },
            )
            &&& member(doc, key) is Some ==> seq![
                "seq"@,
                "message_id"@,
                "channel_id"@,
                "channel_name"@,
                "guild_name"@,
                "is_dm"@,
                "author_id"@,
                "author_name"@,
                "author_is_bot"@,
                "content"@,
                "timestamp"@,
                "mentions_me"@,
                "reply_to_message_id"@,
            ].contains(key)
        }),
{
    reveal_strlit("seq");
    reveal_strlit("message_id");
    reveal_strlit("channel_id");
    reveal_strlit("channel_name");
    reveal_strlit("guild_name");
    reveal_strlit("is_dm");
    reveal_strlit("author_id");
    reveal_strlit("author_name");
    reveal_strlit("author_is_bot");
    reveal_strlit("content");
    reveal_strlit("timestamp");
    reveal_strlit("mentions_me");
    reveal_strlit("reply_to_message_id");
    assert("seq"@.len() == 3 && "message_id"@.len() == 10 && "channel_id"@.len() == 10
        && "channel_name"@.len() == 12 && "guild_name"@.len() == 10 && "is_dm"@.len() == 5
        && "author_id"@.len() == 9 && "author_name"@.len() == 11 && "author_is_bot"@.len() == 13
        && "content"@.len() == 7 && "timestamp"@.len() == 9 && "mentions_me"@.len() == 11
        && "reply_to_message_id"@.len() == 19);
    assert("message_id"@[0] == 'm' && "channel_id"@[0] == 'c' && "guild_name"@[0] == 'g');
    assert("author_id"@[0] == 'a' && "timestamp"@[0] == 't');
    assert("author_name"@[0] == 'a' && "mentions_me"@[0] == 'm');
    let keys = seq![
        "seq"@,
        "message_id"@,
        "channel_id"@,
        "channel_name"@,
        "guild_name"@,
        "is_dm"@,
        "author_id"@,
        "author_name"@,
        "author_is_bot"@,
        "content"@,
        "timestamp"@,
        "mentions_me"@,
        "reply_to_message_id"@,
    ];
    assert(keys[0] == "seq"@ && keys[1] == "message_id"@ && keys[2] == "channel_id"@ && keys[3]
        == "channel_name"@ && keys[4] == "guild_name"@ && keys[5] == "is_dm"@ && keys[6]
        == "author_id"@ && keys[7] == "author_name"@ && keys[8] == "author_is_bot"@ && keys[9]
        == "content"@ && keys[10] == "timestamp"@ && keys[11] == "mentions_me"@ && keys[12]
        == "reply_to_message_id"@);
}

/// A row of messages is shown message by message, in its order.
pub proof fn rows_are_shown_in_order(events: Seq<MsgEvent>, e: MsgEvent, i: int)
    ensures
        event_docs(events).len() == events.len(),
        0 <= i < events.len() ==> event_docs(events)[i] == event_json(events[i]),
        event_docs(events.push(e)) == event_docs(events).push(event_json(e)),
{
    assert(event_docs(events.push(e)) =~= event_docs(events).push(event_json(e)));
}

/// What a session sees of its behavior: the channels watched, in their order,
/// who is answered, and how often it wakes in quiet times.
pub proof fn behavior_is_shown(b: BehaviorView, i: int)
    ensures
        ({
            let doc = behavior_json(b);
            &&& member(doc, "watched_channels"@) matches Some(Json::Array(items)) && items.len()
                == b.watched_channels.len() && (0 <= i < items.len() ==> items[i] == Json::Str(
                b.watched_channels[i],
            ))
            &&& b.respond_to == RespondTo::All ==> member(doc, "respond_to"@) == Some(
                Json::Str("all"@),
            )
            &&& b.respond_to == RespondTo::Mentions ==> member(doc, "respond_to"@) == Some(
                Json::Str("mentions"@),
            )
            &&& member(doc, "idle_wake_minutes"@) == Some(
                Json::Number(decimal(b.idle_wake_minutes as nat)),
            )
        }),
{
    reveal_strlit("watched_channels");
    reveal_strlit("respond_to");
    reveal_strlit("idle_wake_minutes");
    assert("watched_channels"@.len() == 16 && "respond_to"@.len() == 10
        && "idle_wake_minutes"@.len() == 17);
}

/// What a session sees of its server's consent: the channels inhabited and the
/// people whom the operator opted in, each once; who is opted in, by id, under
/// which name; and where the post is, or null.
pub proof fn consent_is_shown(doc: Json, g: GuildView, name: Seq<char>)
    requires
        shows_guild(doc, g),
    ensures
        member(doc, "active_channels"@) matches Some(Json::Array(items)) && items.no_duplicates()
            && (items.contains(Json::Str(name)) <==> g.active_channels.contains(name)),
        member(doc, "grandfathered"@) matches Some(Json::Array(items)) && items.no_duplicates()
            && (items.contains(Json::Str(name)) <==> g.grandfathered.contains(name)),
        member(doc, "opted_users"@) matches Some(users) && (member(users, name) is Some
            <==> g.opted_users.contains_key(name)) && (g.opted_users.contains_key(name)
            ==> member(users, name) == Some(Json::Str(g.opted_users[name]))),
        g.consent_post is None ==> member(doc, "consent_post"@) == Some(Json::Null),
        g.consent_post matches Some(p) ==> (member(doc, "consent_post"@) matches Some(q) && member(
            q,
            "channel_id"@,
        ) == Some(Json::Str(p.channel_id)) && member(q, "message_id"@) == Some(
            Json::Str(p.message_id),
        )),
{
    reveal_strlit("active_channels");
    reveal_strlit("opted_users");
    reveal_strlit("consent_post");
    reveal_strlit("grandfathered");
    reveal_strlit("channel_id");
    reveal_strlit("message_id");
    assert("active_channels"@.len() == 15 && "opted_users"@.len() == 11 && "consent_post"@.len()
        == 12 && "grandfathered"@.len() == 13);
    assert("channel_id"@[0] == 'c' && "message_id"@[0] == 'm');
    let (active, exempt) = choose|active: Json, exempt: Json| #[trigger]
        guild_json(active, g, exempt) == doc && lists(active, g.active_channels) && lists(
            exempt,
            g.grandfathered,
        );
    assert(guild_json(active, g, exempt) == doc);
    lemma_listing(active, g.active_channels, name);
    lemma_listing(exempt, g.grandfathered, name);
}

proof fn lemma_listing(doc: Json, members: Set<Seq<char>>, name: Seq<char>)
    requires
        lists(doc, members),
    ensures
        doc matches Json::Array(items) && items.no_duplicates() && (items.contains(
            Json::Str(name),
        ) <==> members.contains(name)),
{
    let names = choose|names: Seq<Seq<char>>| #[trigger]
        is_listing(names, members) && doc == Json::Array(strs(names));
    let items = strs(names);
    assert(names.to_set().contains(name) <==> names.contains(name));
    if names.contains(name) {
        let i = choose|i: int| 0 <= i < names.len() && names[i] == name;
        assert(items[i] == Json::Str(name));
    }
    if items.contains(Json::Str(name)) {
        let i = choose|i: int| 0 <= i < items.len() && items[i] == Json::Str(name);
        assert(names[i] == name);
    }
    assert forall|i: int, j: int| 0 <= i < items.len() && 0 <= j < items.len() && i
        != j implies items[i] != items[j] by {
        assert(names[i] != names[j]);
    }
}

} // verus!
