//! Reconciling who is opted in with the reactions that each consent post
//! carries, in both directions. This catches whatever happened while the
//! daemon was down.

use vstd::prelude::*;

use crate::assoc::{AssocMap, Copied};
use crate::buffer::MsgEvent;
use crate::consent::{
    guild_of, is_opted, opt_in, opt_out, opted_out, ConsentPost, GuildConsent, GuildView,
};
use crate::post::post_on_record;
use crate::rows::{lemma_next_is_fresh, lemma_push};
use crate::scope::Scope;
use crate::state::{no_session, session_of, ScrubView, Shared, SharedView};
use crate::text;

verus! {

/// The people whose reaction a consent post carries: user id -> name.
pub type Reactors = AssocMap<String, String>;

/// A server is among the first `n` of a row of entries.
spec fn among(entries: Seq<(&u64, &GuildConsent)>, n: int, gid: u64) -> bool {
    exists|a: int| 0 <= a < n && *(#[trigger] entries[a]).0 == gid
}

/// The servers that have a consent post, with their posts.
pub fn posts(shared: &Shared) -> (out: Vec<(u64, ConsentPost)>)
    ensures
        forall|i: int|
            0 <= i < out@.len() ==> post_on_record(shared@, (#[trigger] out@[i]).0) == Some(
                out@[i].1@,
            ),
        forall|i: int, j: int|
            0 <= i < j < out@.len() ==> (#[trigger] out@[i]).0 != (#[trigger] out@[j]).0,
        forall|gid: u64| #[trigger]
            post_on_record(shared@, gid) is Some ==> exists|i: int|
                0 <= i < out@.len() && (#[trigger] out@[i]).0 == gid,
{
    let mut out: Vec<(u64, ConsentPost)> = Vec::new();
    for e in it: shared.consent.guilds.iter()
        invariant
            it.seq().no_duplicates(),
            forall|j: int|
                0 <= j < it.seq().len() ==> shared.consent.guilds@.contains_key(
                    *(#[trigger] it.seq()[j]).0,
                ) && shared.consent.guilds@[*it.seq()[j].0] == *it.seq()[j].1,
            forall|k: u64| #[trigger]
                shared.consent.guilds@.contains_key(k) ==> it.seq().contains(
                    (&k, &shared.consent.guilds@[k]),
                ),
            forall|j: int|
                0 <= j < out@.len() ==> post_on_record(shared@, (#[trigger] out@[j]).0) == Some(
                    out@[j].1@,
                ),
            forall|j: int|
                0 <= j < out@.len() ==> among(it.seq(), it.index(), (#[trigger] out@[j]).0),
            forall|a: int, b: int|
                0 <= a < b < out@.len() ==> (#[trigger] out@[a]).0 != (#[trigger] out@[b]).0,
            forall|j: int|
                0 <= j < it.index() && post_on_record(
                    shared@,
                    *(#[trigger] it.seq()[j]).0,
                ) is Some ==> exists|a: int|
                    0 <= a < out@.len() && (#[trigger] out@[a]).0 == *it.seq()[j].0,
    {
        let gid: u64 = *e.0;
        let ghost i = it.index();
        let ghost seq = it.seq();
        let ghost before = out@;
        assert(guild_of(shared@.consent, gid) == (*seq[i].1)@);
        if let Some(p) = &e.1.consent_post {
            assert forall|a: int| 0 <= a < before.len() implies (#[trigger] before[a]).0 != gid by {
                let b = choose|b: int| 0 <= b < i && *(#[trigger] seq[b]).0 == before[a].0;
                if before[a].0 == gid {
                    assert(seq[b] == seq[i]);
                }
            }
            out.push((gid, p.copied()));
            assert(out@[before.len() as int].0 == gid);
        }
        assert forall|j: int| 0 <= j < out@.len() implies among(
            seq,
            i + 1,
            (#[trigger] out@[j]).0,
        ) by {
            if j < before.len() {
                let a = choose|a: int| 0 <= a < i && *(#[trigger] seq[a]).0 == before[j].0;
                assert(*seq[a].0 == out@[j].0);
            } else {
                assert(*seq[i].0 == out@[j].0);
            }
        }
        assert forall|j: int|
            0 <= j < i + 1 && post_on_record(
                shared@,
                *(#[trigger] seq[j]).0,
            ) is Some implies exists|a: int|
            0 <= a < out@.len() && (#[trigger] out@[a]).0 == *seq[j].0 by {
            if j < i {
                let a = choose|a: int| 0 <= a < before.len() && (#[trigger] before[a]).0
                    == *seq[j].0;
                assert(out@[a] == before[a]);
            } else {
                assert(out@[before.len() as int].0 == *seq[j].0);
            }
        }
    }
    out
}

/// The state with everyone who reacted opted in.
pub open spec fn reactors_in(
    s: SharedView,
    gid: u64,
    reacted: Map<Seq<char>, Seq<char>>,
) -> SharedView {
    let g = guild_of(s.consent, gid);
    if reacted == Map::<Seq<char>, Seq<char>>::empty() {
        s
    } else {
        SharedView {
            consent: s.consent.insert(
                gid,
                GuildView { opted_users: g.opted_users.union_prefer_right(reacted), ..g },
            ),
            ..s
        }
    }
}

/// A person is opted in without a reaction, and not by the operator's word.
pub open spec fn lapsed(
    s: SharedView,
    gid: u64,
    reacted: Map<Seq<char>, Seq<char>>,
    user: Seq<char>,
) -> bool {
    is_opted(s, gid, user) && !reacted.contains_key(user) && !guild_of(
        s.consent,
        gid,
    ).grandfathered.contains(user)
}

/// The state with the people of a row opted out, one after another.
pub open spec fn all_out(s: SharedView, gid: u64, users: Seq<Seq<char>>) -> SharedView
    decreases users.len(),
{
    if users.len() == 0 {
        s
    } else {
        opted_out(all_out(s, gid, users.drop_last()), gid, users.last())
    }
}

/// Who a reconciliation opted in and out.
pub struct Reconciled {
    pub joined: Vec<String>,
    pub left: Vec<String>,
}

proof fn lemma_all_out(s: SharedView, gid: u64, users: Seq<Seq<char>>)
    ensures
        guild_of(all_out(s, gid, users).consent, gid).opted_users == guild_of(
            s.consent,
            gid,
        ).opted_users.remove_keys(users.to_set()),
        guild_of(all_out(s, gid, users).consent, gid).grandfathered == guild_of(
            s.consent,
            gid,
        ).grandfathered,
        guild_of(all_out(s, gid, users).consent, gid).active_channels == guild_of(
            s.consent,
            gid,
        ).active_channels,
        guild_of(all_out(s, gid, users).consent, gid).consent_post == guild_of(
            s.consent,
            gid,
        ).consent_post,
        forall|other: u64|
            other != gid ==> #[trigger] guild_of(all_out(s, gid, users).consent, other)
                == guild_of(s.consent, other),
    decreases users.len(),
{
    let before = guild_of(s.consent, gid).opted_users;
    if users.len() == 0 {
        assert(before =~= before.remove_keys(users.to_set()));
    } else {
        let t = users.drop_last();
        lemma_all_out(s, gid, t);
        assert(users =~= t.push(users.last()));
        lemma_push(t, users.last());
        assert(users.to_set() =~= t.to_set().insert(users.last()));
        assert(before.remove_keys(t.to_set()).remove(users.last()) =~= before.remove_keys(
            users.to_set(),
        ));
        assert forall|other: u64| other != gid implies #[trigger] guild_of(
            all_out(s, gid, users).consent,
            other,
        ) == guild_of(s.consent, other) by {
            assert(guild_of(all_out(s, gid, t).consent, other) == guild_of(s.consent, other));
        }
    }
}

/// What a reconciliation changes, given who reacted and who thereby left.
pub open spec fn reconciled(
    s: SharedView,
    gid: u64,
    reacted: Map<Seq<char>, Seq<char>>,
    left: Seq<Seq<char>>,
) -> SharedView {
    all_out(reactors_in(s, gid, reacted), gid, left)
}

/// Everyone whose reaction is on record gets opted in, and whoever lacks one
/// gets opted out, unless the operator opted them in. Fails safe: a post whose
/// reactions could not be read changes nothing.
pub fn reconcile(shared: &mut Shared, gid: u64, reacted: &Option<Reactors>) -> (out: Reconciled)
    ensures
        match *reacted {
            None => final(shared)@ == old(shared)@ && out.joined@.len() == 0 && out.left@.len()
                == 0,
            Some(r) => {
                &&& final(shared)@ == reconciled(old(shared)@, gid, r@, text::texts(out.left@))
                &&& text::texts(out.left@).no_duplicates()
                &&& forall|u: Seq<char>| #[trigger]
                    text::texts(out.left@).contains(u) <==> lapsed(old(shared)@, gid, r@, u)
                &&& text::texts(out.joined@).no_duplicates()
                &&& forall|u: Seq<char>| #[trigger]
                    text::texts(out.joined@).contains(u) <==> r@.contains_key(u) && !is_opted(
                        old(shared)@,
                        gid,
                        u,
                    )
            },
        },
{
    match reacted {
        Some(r) => {
            let joined = reconcile_in(shared, gid, r);
            let left = reconcile_out(shared, gid, r);
            Reconciled { joined, left }
        },
        None => Reconciled { joined: Vec::new(), left: Vec::new() },
    }
}

fn reconcile_in(shared: &mut Shared, gid: u64, reacted: &Reactors) -> (joined: Vec<String>)
    ensures
        final(shared)@ == reactors_in(old(shared)@, gid, reacted@),
        text::texts(joined@).no_duplicates(),
        forall|u: Seq<char>| #[trigger]
            text::texts(joined@).contains(u) <==> reacted@.contains_key(u) && !is_opted(
                old(shared)@,
                gid,
                u,
            ),
{
    let mut joined: Vec<String> = Vec::new();
    let n: usize = reacted.len();
    let ghost keys = reacted.keys();
    let ghost none = Map::<Seq<char>, Seq<char>>::empty();
    let ghost mut part = none;
    let mut i: usize = 0;
    while i < n
        invariant
            i <= n == keys.len(),
            keys == reacted.keys(),
            reacted.values().len() == n,
            none == Map::<Seq<char>, Seq<char>>::empty(),
            keys.no_duplicates(),
            forall|k: Seq<char>| #[trigger] reacted@.contains_key(k) <==> keys.contains(k),
            forall|j: int|
                0 <= j < keys.len() ==> reacted@[#[trigger] keys[j]] == reacted.values()[j]@,
            forall|k: Seq<char>| #[trigger]
                part.contains_key(k) <==> keys.take(i as int).contains(k),
            forall|k: Seq<char>| #[trigger] part.contains_key(k) ==> part[k] == reacted@[k],
            shared@ == reactors_in(old(shared)@, gid, part),
            text::texts(joined@).no_duplicates(),
            forall|u: Seq<char>| #[trigger]
                text::texts(joined@).contains(u) <==> part.contains_key(u) && !is_opted(
                    old(shared)@,
                    gid,
                    u,
                ),
        decreases n - i,
    {
        let uid = reacted.key_at(i);
        let name = reacted.value_at(i);
        let ghost before = joined@;
        let ghost old_part = part;
        let ghost mid = shared@;
        proof {
            lemma_next_is_fresh(keys, i as int);
            part = part.insert(uid@, name@);
            assert(reacted@[keys[i as int]] == name@);
        }
        let newly = opt_in(shared, gid, uid.as_str(), name.as_str());
        proof {
            let g = guild_of(old(shared)@.consent, gid);
            assert(part.contains_key(uid@));
            assert(part != none);
            assert(g.opted_users.union_prefer_right(none) =~= g.opted_users);
            assert(g.opted_users.union_prefer_right(old_part).insert(uid@, name@)
                =~= g.opted_users.union_prefer_right(part));
            assert(guild_of(mid.consent, gid).opted_users =~= g.opted_users.union_prefer_right(
                old_part,
            ));
            assert(shared@.consent =~= reactors_in(old(shared)@, gid, part).consent);
            assert(newly == !is_opted(old(shared)@, gid, uid@));
        }
        if newly {
            joined.push(uid.clone());
            proof {
                assert(!old_part.contains_key(uid@));
                assert(!text::texts(before).contains(uid@));
                assert(text::texts(joined@) =~= text::texts(before).push(uid@));
                lemma_push(text::texts(before), uid@);
            }
        }
        proof {
            assert forall|u: Seq<char>| #[trigger] text::texts(joined@).contains(u)
                <==> part.contains_key(u) && !is_opted(old(shared)@, gid, u) by {
                assert(text::texts(before).contains(u) <==> old_part.contains_key(u) && !is_opted(
                    old(shared)@,
                    gid,
                    u,
                ));
            }
        }
        i += 1;
    }
    proof {
        assert(keys.take(i as int) =~= keys);
        assert(part =~= reacted@);
    }
    joined
}

fn reconcile_out(shared: &mut Shared, gid: u64, reacted: &Reactors) -> (left: Vec<String>)
    ensures
        final(shared)@ == all_out(old(shared)@, gid, text::texts(left@)),
        text::texts(left@).no_duplicates(),
        forall|u: Seq<char>| #[trigger]
            text::texts(left@).contains(u) <==> lapsed(old(shared)@, gid, reacted@, u),
{
    let mut left: Vec<String> = Vec::new();
    let g = shared.consent.guild(gid);
    let n: usize = g.opted_users.len();
    let ghost keys = g.opted_users.keys();
    let mut i: usize = 0;
    assert(text::texts(left@) =~= Seq::empty());
    while i < n
        invariant
            i <= n == keys.len(),
            keys == g.opted_users.keys(),
            g@ == guild_of(old(shared)@.consent, gid),
            keys.no_duplicates(),
            forall|k: Seq<char>| #[trigger] g.opted_users@.contains_key(k) <==> keys.contains(k),
            shared@ == all_out(old(shared)@, gid, text::texts(left@)),
            text::texts(left@).no_duplicates(),
            forall|u: Seq<char>| #[trigger]
                text::texts(left@).contains(u) <==> keys.take(i as int).contains(u) && lapsed(
                    old(shared)@,
                    gid,
                    reacted@,
                    u,
                ),
        decreases n - i,
    {
        let uid = g.opted_users.key_at(i);
        let ghost before = left@;
        let ghost seen = keys.take(i as int);
        let ghost next = keys.take(i + 1);
        proof {
            lemma_next_is_fresh(keys, i as int);
            assert(is_opted(old(shared)@, gid, uid@));
        }
        if !reacted.contains_key(uid) && !g.grandfathered.contains(uid) {
            opt_out(shared, gid, uid.as_str());
            left.push(uid.clone());
            proof {
                assert(!text::texts(before).contains(uid@));
                assert(text::texts(left@) =~= text::texts(before).push(uid@));
                assert(text::texts(left@).drop_last() =~= text::texts(before));
                lemma_push(text::texts(before), uid@);
            }
        }
        proof {
            assert forall|u: Seq<char>| #[trigger] text::texts(left@).contains(u)
                <==> next.contains(u) && lapsed(old(shared)@, gid, reacted@, u) by {
                assert(text::texts(before).contains(u) <==> seen.contains(u) && lapsed(
                    old(shared)@,
                    gid,
                    reacted@,
                    u,
                ));
                assert(next.contains(u) <==> seen.contains(u) || u == uid@);
            }
        }
        i += 1;
    }
    proof {
        assert(keys.take(i as int) =~= keys);
        assert forall|u: Seq<char>| #[trigger] text::texts(left@).contains(u) <==> lapsed(
            old(shared)@,
            gid,
            reacted@,
            u,
        ) by {
            assert(g.opted_users@.contains_key(u) <==> keys.contains(u));
        }
    }
    left
}

/// After a reconciliation the people opted in on the server are exactly those
/// whose reaction is on record and those the operator opted in before; no other
/// server's record has changed.
pub proof fn reconciled_matches_reactions(
    s: SharedView,
    gid: u64,
    reacted: Map<Seq<char>, Seq<char>>,
    left: Seq<Seq<char>>,
    user: Seq<char>,
    other: u64,
)
    requires
        forall|u: Seq<char>| #[trigger] left.contains(u) <==> lapsed(s, gid, reacted, u),
        other != gid,
    ensures
        ({
            let t = reconciled(s, gid, reacted, left);
            &&& is_opted(t, gid, user) <==> reacted.contains_key(user) || (is_opted(s, gid, user)
                && guild_of(s.consent, gid).grandfathered.contains(user))
            &&& reacted.contains_key(user) ==> guild_of(t.consent, gid).opted_users[user]
                == reacted[user]
            &&& guild_of(t.consent, other) == guild_of(s.consent, other)
        }),
{
    let m = reactors_in(s, gid, reacted);
    lemma_all_out(m, gid, left);
    let g = guild_of(s.consent, gid);
    assert(guild_of(m.consent, gid).opted_users =~= g.opted_users.union_prefer_right(reacted)) by {
        if reacted == Map::<Seq<char>, Seq<char>>::empty() {
            assert(g.opted_users.union_prefer_right(reacted) =~= g.opted_users);
        }
    }
    assert(left.to_set().contains(user) <==> left.contains(user));
}

proof fn lemma_all_out_effects(
    s: SharedView,
    gid: u64,
    users: Seq<Seq<char>>,
    user: Seq<char>,
    ch: Seq<char>,
    e: MsgEvent,
)
    requires
        users.no_duplicates(),
        forall|u: Seq<char>| #[trigger] users.contains(u) ==> is_opted(s, gid, u),
    ensures
        ({
            let t = all_out(s, gid, users);
            let g = guild_of(s.consent, gid);
            &&& t.scrub_gen == (s.scrub_gen + users.len()) % 0x1_0000_0000_0000_0000
            &&& t.sessions.contains_key(ch) <==> s.sessions.contains_key(ch) && !(users.len() > 0
                && g.active_channels.contains(ch))
            &&& t.sessions.contains_key(ch) ==> t.sessions[ch] == s.sessions[ch]
            &&& users.contains(user) ==> t.pending_scrubs.contains(
                ScrubView {
                    scope: Scope::Guild(gid),
                    user_id: user,
                    user_name: g.opted_users[user],
                },
            )
            &&& s.pending_scrubs.len() <= t.pending_scrubs.len()
            &&& t.pending_scrubs.take(s.pending_scrubs.len() as int) == s.pending_scrubs
            &&& t.buffer.ring.contains(e) <==> s.buffer.ring.contains(e) && !(e.scope
                == Scope::Guild(gid) && users.contains(e.author_id@))
            &&& t.buffer.delivered == s.buffer.delivered && t.buffer.next_seq == s.buffer.next_seq
            &&& t == (SharedView {
                consent: t.consent,
                sessions: t.sessions,
                scrub_gen: t.scrub_gen,
                pending_scrubs: t.pending_scrubs,
                buffer: t.buffer,
                ..s
            })
        }),
    decreases users.len(),
{
    let q = s.pending_scrubs;
    if users.len() == 0 {
        assert(q.take(q.len() as int) =~= q);
    } else {
        let before = users.drop_last();
        let last = users.last();
        let mid = all_out(s, gid, before);
        let t = all_out(s, gid, users);
        assert(users =~= before.push(last));
        lemma_push(before, last);
        assert(!before.contains(last)) by {
            if before.contains(last) {
                let i = choose|i: int| 0 <= i < before.len() && before[i] == last;
                assert(users[i] == users[users.len() - 1]);
            }
        }
        assert(before.no_duplicates());
        assert(users.contains(last));
        assert forall|u: Seq<char>| #[trigger] before.contains(u) implies is_opted(s, gid, u) by {
            assert(before.push(last).contains(u));
        }
        lemma_all_out_effects(s, gid, before, user, ch, e);
        lemma_all_out(s, gid, before);
        assert(!before.to_set().contains(last));
        assert(is_opted(s, gid, last));
        assert(is_opted(mid, gid, last));
        let job = ScrubView {
            scope: Scope::Guild(gid),
            user_id: last,
            user_name: guild_of(mid.consent, gid).opted_users[last],
        };
        assert(job.user_name == guild_of(s.consent, gid).opted_users[last]);
        crate::consent::scrubs_queue_up(mid.pending_scrubs, job);
        crate::consent::opt_out_changes_one_entry(mid, gid, last, gid, ch);
        crate::state::drops_change_nothing_else(mid, Scope::Guild(gid), ch, ch);
        crate::buffer::purge_user_is_scoped(mid.buffer, Scope::Guild(gid), last, e);
        assert(t.pending_scrubs.take(q.len() as int) =~= mid.pending_scrubs.take(q.len() as int))
            by {
            assert(t.pending_scrubs.take(mid.pending_scrubs.len() as int) == mid.pending_scrubs);
        }
        if before.contains(user) {
            let j = ScrubView {
                scope: Scope::Guild(gid),
                user_id: user,
                user_name: guild_of(s.consent, gid).opted_users[user],
            };
            let i = choose|i: int|
                0 <= i < mid.pending_scrubs.len() && mid.pending_scrubs[i] == j;
            assert(t.pending_scrubs.take(mid.pending_scrubs.len() as int)[i] == j);
            assert(t.pending_scrubs[i] == j);
        }
    }
}

/// What a reconciliation does to those who lapsed is all that opting out does:
/// where anyone did, no channel that the server inhabits has a session left and
/// the generation has moved on once for each of them; for each of them a scrub
/// under their name waits, and nothing they wrote there is buffered.
pub proof fn lapsed_people_are_forgotten(
    s: SharedView,
    gid: u64,
    reacted: Map<Seq<char>, Seq<char>>,
    left: Seq<Seq<char>>,
    user: Seq<char>,
    ch: Seq<char>,
    e: MsgEvent,
)
    requires
        left.no_duplicates(),
        forall|u: Seq<char>| #[trigger] left.contains(u) <==> lapsed(s, gid, reacted, u),
    ensures
        ({
            let t = reconciled(s, gid, reacted, left);
            let g = guild_of(s.consent, gid);
            let out = g.opted_users.contains_key(user) && !reacted.contains_key(user)
                && !g.grandfathered.contains(user);
            &&& out ==> left.len() > 0
            &&& out ==> !guild_of(t.consent, gid).opted_users.contains_key(user)
            &&& out ==> t.pending_scrubs.contains(
                ScrubView {
                    scope: Scope::Guild(gid),
                    user_id: user,
                    user_name: g.opted_users[user],
                },
            )
            &&& out && e.scope == Scope::Guild(gid) && e.author_id@ == user
                ==> !t.buffer.ring.contains(e)
            &&& left.len() > 0 && g.active_channels.contains(ch) ==> session_of(t.sessions, ch)
                == no_session()
            &&& 0 < left.len() < 0x1_0000_0000_0000_0000 ==> t.scrub_gen != s.scrub_gen
            &&& t.scrub_gen == (s.scrub_gen + left.len()) % 0x1_0000_0000_0000_0000
        }),
{
    let m = reactors_in(s, gid, reacted);
    lemma_reactors_in(s, gid, reacted);
    assert forall|u: Seq<char>| #[trigger] left.contains(u) implies is_opted(m, gid, u) by {
        assert(lapsed(s, gid, reacted, u));
    }
    lemma_all_out_effects(m, gid, left, user, ch, e);
    lemma_all_out(m, gid, left);
    assert(left.to_set().contains(user) <==> left.contains(user));
    assert(left.contains(user) <==> lapsed(s, gid, reacted, user));
    if left.contains(user) {
        let i = choose|i: int| 0 <= i < left.len() && left[i] == user;
        assert(left.len() > 0);
    }
}

proof fn lemma_reactors_in(s: SharedView, gid: u64, reacted: Map<Seq<char>, Seq<char>>)
    ensures
        ({
            let m = reactors_in(s, gid, reacted);
            let g = guild_of(s.consent, gid);
            let h = guild_of(m.consent, gid);
            &&& m == (SharedView { consent: m.consent, ..s })
            &&& h.opted_users == g.opted_users.union_prefer_right(reacted)
            &&& h.active_channels == g.active_channels
            &&& h.grandfathered == g.grandfathered
            &&& h.consent_post == g.consent_post
        }),
{
    if reacted == Map::<Seq<char>, Seq<char>>::empty() {
        let g = guild_of(s.consent, gid);
        assert(g.opted_users.union_prefer_right(reacted) =~= g.opted_users);
    }
}

/// What a reconciliation leaves alone: the server's channels and post, everyone
/// who stays under the name they had, unless they reacted under another; the
/// messages of everyone else; the sessions of all other channels, and of all
/// channels where nobody lapsed; the scrubs that waited already; and all that has
/// nothing to do with consent.
pub proof fn reconciling_leaves_the_rest(
    s: SharedView,
    gid: u64,
    reacted: Map<Seq<char>, Seq<char>>,
    left: Seq<Seq<char>>,
    user: Seq<char>,
    ch: Seq<char>,
    e: MsgEvent,
)
    requires
        left.no_duplicates(),
        forall|u: Seq<char>| #[trigger] left.contains(u) <==> lapsed(s, gid, reacted, u),
    ensures
        ({
            let t = reconciled(s, gid, reacted, left);
            let g = guild_of(s.consent, gid);
            let h = guild_of(t.consent, gid);
            let out = g.opted_users.contains_key(e.author_id@) && !reacted.contains_key(
                e.author_id@,
            ) && !g.grandfathered.contains(e.author_id@);
            &&& h.active_channels == g.active_channels
            &&& h.consent_post == g.consent_post
            &&& h.grandfathered == g.grandfathered
            &&& g.opted_users.contains_key(user) && g.grandfathered.contains(user)
                && !reacted.contains_key(user) ==> h.opted_users.contains_key(user)
                && h.opted_users[user] == g.opted_users[user]
            &&& s.buffer.ring.contains(e) && !(e.scope == Scope::Guild(gid) && out)
                ==> t.buffer.ring.contains(e)
            &&& t.buffer.ring.contains(e) ==> s.buffer.ring.contains(e)
            &&& left.len() == 0 || !g.active_channels.contains(ch) ==> session_of(t.sessions, ch)
                == session_of(s.sessions, ch)
            &&& t.pending_scrubs.take(s.pending_scrubs.len() as int) == s.pending_scrubs
            &&& t.cfg == s.cfg && t.behaviors == s.behaviors && t.tokens == s.tokens
            &&& t.typing_active == s.typing_active && t.typing_waiting == s.typing_waiting
            &&& t.bot_id == s.bot_id && t.post_search == s.post_search
            &&& t.buffer.delivered == s.buffer.delivered && t.buffer.next_seq == s.buffer.next_seq
        }),
{
    let m = reactors_in(s, gid, reacted);
    lemma_reactors_in(s, gid, reacted);
    assert forall|u: Seq<char>| #[trigger] left.contains(u) implies is_opted(m, gid, u) by {
        assert(lapsed(s, gid, reacted, u));
    }
    lemma_all_out_effects(m, gid, left, user, ch, e);
    lemma_all_out(m, gid, left);
    assert(left.to_set().contains(user) <==> left.contains(user));
    assert(left.contains(user) <==> lapsed(s, gid, reacted, user));
    assert(left.contains(e.author_id@) <==> lapsed(s, gid, reacted, e.author_id@));
}

} // verus!
