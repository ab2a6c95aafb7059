//! Who may be seen. The reaction on each server's consent post is the source
//! of truth: react = opt in, un-react = opt out. Opting out triggers the full
//! scrub pipeline. Nothing in this file is shared across servers.

use std::collections::HashMap;
use vstd::prelude::*;

use crate::assoc::{AssocMap, Copied, StrSet};
use crate::scope::Scope;
use crate::state::{jobs, ScrubJob, ScrubView, Shared, SharedView};

verus! {

/// The consent of each server, by guild id.
pub struct Consent {
    pub guilds: HashMap<u64, GuildConsent>,
}

pub struct GuildConsent {
    /// Channels the bot inhabits (summoned by an opted-in @mention).
    /// Messages anywhere else in the server are dropped at ingest.
    pub active_channels: StrSet,
    /// user id -> display name at opt-in time.
    pub opted_users: AssocMap<String, String>,
    pub consent_post: Option<ConsentPost>,
    /// Opted in by the operator without a reaction on record: the reconciler
    /// won't opt them out, but a live un-react still does.
    pub grandfathered: StrSet,
}

/// The one consent post per server: reacting to it is how people opt in.
pub struct ConsentPost {
    pub channel_id: String,
    pub message_id: String,
}

#[verifier::ext_equal]
pub struct GuildView {
    pub active_channels: Set<Seq<char>>,
    pub opted_users: Map<Seq<char>, Seq<char>>,
    pub consent_post: Option<PostView>,
    pub grandfathered: Set<Seq<char>>,
}

pub struct PostView {
    pub channel_id: Seq<char>,
    pub message_id: Seq<char>,
}

impl View for ConsentPost {
    type V = PostView;

    open spec fn view(&self) -> PostView {
        PostView { channel_id: self.channel_id@, message_id: self.message_id@ }
    }
}

impl Copied for ConsentPost {
    fn copied(&self) -> (res: Self) {
        ConsentPost { channel_id: self.channel_id.clone(), message_id: self.message_id.clone() }
    }
}

/// A post that may be missing.
pub open spec fn opt_post(p: Option<ConsentPost>) -> Option<PostView> {
    match p {
        Some(q) => Some(q@),
        None => None,
    }
}

impl View for GuildConsent {
    type V = GuildView;

    open spec fn view(&self) -> GuildView {
        GuildView {
            active_channels: self.active_channels@,
            opted_users: self.opted_users@,
            consent_post: opt_post(self.consent_post),
            grandfathered: self.grandfathered@,
        }
    }
}

impl Copied for GuildConsent {
    fn copied(&self) -> (res: Self) {
        GuildConsent {
            active_channels: self.active_channels.copied(),
            opted_users: self.opted_users.copied(),
            consent_post: match &self.consent_post {
                Some(p) => Some(p.copied()),
                None => None,
            },
            grandfathered: self.grandfathered.copied(),
        }
    }
}

/// Nobody opted in, no channel inhabited, no post.
pub open spec fn no_consent() -> GuildView {
    GuildView {
        active_channels: Set::empty(),
        opted_users: Map::empty(),
        consent_post: None,
        grandfathered: Set::empty(),
    }
}

impl Default for GuildConsent {
    fn default() -> (g: Self)
        ensures
            g@ == no_consent(),
    {
        GuildConsent {
            active_channels: StrSet::new(),
            opted_users: AssocMap::new(),
            consent_post: None,
            grandfathered: StrSet::new(),
        }
    }
}

/// What a record says.
pub open spec fn guild_view() -> spec_fn(GuildConsent) -> GuildView {
    |g: GuildConsent| g@
}

impl View for Consent {
    type V = Map<u64, GuildView>;

    open spec fn view(&self) -> Map<u64, GuildView> {
        self.guilds@.map_values(guild_view())
    }
}

impl Default for Consent {
    fn default() -> (c: Self)
        ensures
            c@ == Map::<u64, GuildView>::empty(),
    {
        let c = Consent { guilds: HashMap::new() };
        assert(c@ =~= Map::empty());
        c
    }
}

/// The consent of one server; one without a record has none.
pub open spec fn guild_of(c: Map<u64, GuildView>, gid: u64) -> GuildView {
    if c.contains_key(gid) {
        c[gid]
    } else {
        no_consent()
    }
}

/// The record of the server with the person opted in.
pub open spec fn with_user(g: GuildView, user: Seq<char>, name: Seq<char>) -> GuildView {
    GuildView { opted_users: g.opted_users.insert(user, name), ..g }
}

/// The record of the server with the person opted out.
pub open spec fn without_user(g: GuildView, user: Seq<char>) -> GuildView {
    GuildView { opted_users: g.opted_users.remove(user), ..g }
}

/// The record of the server with the channel inhabited.
pub open spec fn with_channel(g: GuildView, ch: Seq<char>) -> GuildView {
    GuildView { active_channels: g.active_channels.insert(ch), ..g }
}

/// The record of the server with the channel dormant.
pub open spec fn without_channel(g: GuildView, ch: Seq<char>) -> GuildView {
    GuildView { active_channels: g.active_channels.remove(ch), ..g }
}

impl Consent {
    /// The record of a server, taken out; a fresh one where there is none.
    fn take(&mut self, gid: u64) -> (g: GuildConsent)
        ensures
            g@ == guild_of(old(self)@, gid),
            final(self)@ == old(self)@.remove(gid),
    {
        let g = match self.guilds.remove(&gid) {
            Some(g) => g,
            None => GuildConsent::default(),
        };
        assert(self@ =~= old(self)@.remove(gid));
        g
    }

    fn put(&mut self, gid: u64, g: GuildConsent)
        ensures
            final(self)@ == old(self)@.insert(gid, g@),
    {
        self.guilds.insert(gid, g);
        assert(self@ =~= old(self)@.insert(gid, g@));
    }

    /// The consent of one server; one without a record has none.
    pub fn guild(&self, gid: u64) -> (g: GuildConsent)
        ensures
            g@ == guild_of(self@, gid),
    {
        match self.guilds.get(&gid) {
            Some(g) => g.copied(),
            None => GuildConsent::default(),
        }
    }

    /// Records a person as opted in; tells whether they were not before.
    pub fn add_user(&mut self, gid: u64, user_id: &str, name: &str) -> (newly: bool)
        ensures
            final(self)@ == old(self)@.insert(
                gid,
                with_user(guild_of(old(self)@, gid), user_id@, name@),
            ),
            newly == !guild_of(old(self)@, gid).opted_users.contains_key(user_id@),
    {
        let mut g = self.take(gid);
        let newly = g.opted_users.insert(user_id.to_owned(), name.to_owned()).is_none();
        self.put(gid, g);
        assert(self@ =~= old(self)@.insert(
            gid,
            with_user(guild_of(old(self)@, gid), user_id@, name@),
        ));
        newly
    }

    /// Removes a person; hands out the name they were recorded under.
    pub fn remove_user(&mut self, gid: u64, user_id: &str) -> (name: Option<String>)
        ensures
            final(self)@ == old(self)@.insert(
                gid,
                without_user(guild_of(old(self)@, gid), user_id@),
            ),
            match name {
                Some(n) => {
                    &&& guild_of(old(self)@, gid).opted_users.contains_key(user_id@)
                    &&& guild_of(old(self)@, gid).opted_users[user_id@] == n@
                },
                None => !guild_of(old(self)@, gid).opted_users.contains_key(user_id@),
            },
    {
        let mut g = self.take(gid);
        let name = g.opted_users.remove(&user_id.to_owned());
        self.put(gid, g);
        assert(self@ =~= old(self)@.insert(
            gid,
            without_user(guild_of(old(self)@, gid), user_id@),
        ));
        name
    }

    /// Records a channel as inhabited.
    pub fn add_channel(&mut self, gid: u64, channel_id: &str)
        ensures
            final(self)@ == old(self)@.insert(
                gid,
                with_channel(guild_of(old(self)@, gid), channel_id@),
            ),
    {
        let mut g = self.take(gid);
        g.active_channels.insert(channel_id.to_owned());
        self.put(gid, g);
        assert(self@ =~= old(self)@.insert(
            gid,
            with_channel(guild_of(old(self)@, gid), channel_id@),
        ));
    }

    /// Returns a channel to dormant.
    pub fn remove_channel(&mut self, gid: u64, channel_id: &str)
        ensures
            final(self)@ == old(self)@.insert(
                gid,
                without_channel(guild_of(old(self)@, gid), channel_id@),
            ),
    {
        let mut g = self.take(gid);
        g.active_channels.remove(&channel_id.to_owned());
        self.put(gid, g);
        assert(self@ =~= old(self)@.insert(
            gid,
            without_channel(guild_of(old(self)@, gid), channel_id@),
        ));
    }

    /// Records the server's consent post.
    pub fn set_post(&mut self, gid: u64, post: ConsentPost)
        ensures
            final(self)@ == old(self)@.insert(
                gid,
                (GuildView { consent_post: Some(post@), ..guild_of(old(self)@, gid) }),
            ),
    {
        let mut g = self.take(gid);
        g.consent_post = Some(post);
        self.put(gid, g);
        assert(self@ =~= old(self)@.insert(
            gid,
            GuildView { consent_post: Some(post@), ..guild_of(old(self)@, gid) },
        ));
    }
}

// ---- opting in and out ----

/// The state with a person opted in on a server.
pub open spec fn opted_in(s: SharedView, gid: u64, user: Seq<char>, name: Seq<char>) -> SharedView {
    SharedView {
        consent: s.consent.insert(gid, with_user(guild_of(s.consent, gid), user, name)),
        ..s
    }
}

/// A person is opted in on a server.
pub open spec fn is_opted(s: SharedView, gid: u64, user: Seq<char>) -> bool {
    guild_of(s.consent, gid).opted_users.contains_key(user)
}

/// The queue with one more job, unless it is waiting already.
pub open spec fn queued(q: Seq<ScrubView>, job: ScrubView) -> Seq<ScrubView> {
    if q.contains(job) {
        q
    } else {
        q.push(job)
    }
}

/// The state with a person opted out of a server. Where they were opted in,
/// the server's session transcripts and their buffered messages there are
/// gone, and a scrub of the server's persona waits.
pub open spec fn opted_out(s: SharedView, gid: u64, user: Seq<char>) -> SharedView {
    let g = guild_of(s.consent, gid);
    let removed = SharedView { consent: s.consent.insert(gid, without_user(g, user)), ..s };
    if g.opted_users.contains_key(user) {
        let dropped = removed.scope_dropped(Scope::Guild(gid));
        SharedView {
            buffer: dropped.buffer.without_user(Scope::Guild(gid), user),
            pending_scrubs: queued(
                dropped.pending_scrubs,
                ScrubView {
                    scope: Scope::Guild(gid),
                    user_id: user,
                    user_name: g.opted_users[user],
                },
            ),
            ..dropped
        }
    } else {
        removed
    }
}

/// Idempotent; returns true if newly opted in.
pub fn opt_in(shared: &mut Shared, gid: u64, user_id: &str, name: &str) -> (newly: bool)
    ensures
        final(shared)@ == opted_in(old(shared)@, gid, user_id@, name@),
        newly == !is_opted(old(shared)@, gid, user_id@),
{
    shared.consent.add_user(gid, user_id, name)
}

/// Whether a scrub job waits already.
pub fn is_queued(q: &Vec<ScrubJob>, job: &ScrubJob) -> (res: bool)
    ensures
        res == jobs(q@).contains(job@),
{
    let mut i: usize = 0;
    while i < q.len()
        invariant
            i <= q@.len(),
            forall|j: int| 0 <= j < i ==> jobs(q@)[j] != job@,
        decreases q@.len() - i,
    {
        let other = &q[i];
        if other.scope == job.scope && other.user_id == job.user_id && other.user_name
            == job.user_name {
            assert(jobs(q@)[i as int] == job@);
            return true;
        }
        i += 1;
    }
    false
}

/// The full opt-out pipeline: consent entry removed, this server's session
/// transcripts dropped, their buffered messages purged, and a persona scrub
/// queued. Returns their name if they were opted in.
pub fn opt_out(shared: &mut Shared, gid: u64, user_id: &str) -> (name: Option<String>)
    ensures
        final(shared)@ == opted_out(old(shared)@, gid, user_id@),
        match name {
            Some(n) => is_opted(old(shared)@, gid, user_id@) && n@ == guild_of(
                old(shared)@.consent,
                gid,
            ).opted_users[user_id@],
            None => !is_opted(old(shared)@, gid, user_id@),
        },
{
    match shared.consent.remove_user(gid, user_id) {
        None => None,
        Some(name) => {
            let scope = Scope::Guild(gid);
            shared.drop_scope_sessions(scope);
            shared.purge_user(scope, user_id);
            let job = ScrubJob { scope, user_id: user_id.to_owned(), user_name: name.clone() };
            if !is_queued(&shared.pending_scrubs, &job) {
                let ghost before = shared.pending_scrubs@;
                shared.pending_scrubs.push(job);
                assert(jobs(shared.pending_scrubs@) =~= jobs(before).push(job@));
            }
            Some(name)
        },
    }
}

/// Opting in twice is the same as opting in once.
pub proof fn opt_in_is_idempotent(s: SharedView, gid: u64, user: Seq<char>, name: Seq<char>)
    ensures
        opted_in(opted_in(s, gid, user, name), gid, user, name) == opted_in(s, gid, user, name),
        is_opted(opted_in(s, gid, user, name), gid, user),
{
    let once = opted_in(s, gid, user, name);
    let twice = opted_in(once, gid, user, name);
    assert(with_user(guild_of(once.consent, gid), user, name) =~= guild_of(once.consent, gid));
    assert(twice.consent =~= once.consent);
}

/// What opting out promises: the person is no longer opted in there, none of
/// their messages there is buffered, no session of the server is left, turns in
/// flight belong to an older generation, and a scrub naming them waits.
pub proof fn opt_out_forgets(
    s: SharedView,
    gid: u64,
    user: Seq<char>,
    e: crate::buffer::MsgEvent,
    ch: Seq<char>,
)
    requires
        is_opted(s, gid, user),
    ensures
        ({
            let t = opted_out(s, gid, user);
            &&& !is_opted(t, gid, user)
            &&& t.buffer.ring.contains(e) ==> !(e.scope == Scope::Guild(gid) && e.author_id@
                == user)
            &&& guild_of(s.consent, gid).active_channels.contains(ch)
                ==> !t.sessions.contains_key(ch)
            &&& t.scrub_gen != s.scrub_gen
            &&& t.pending_scrubs.contains(
                ScrubView {
                    scope: Scope::Guild(gid),
                    user_id: user,
                    user_name: guild_of(s.consent, gid).opted_users[user],
                },
            )
        }),
{
    let t = opted_out(s, gid, user);
    crate::buffer::purge_user_is_scoped(s.buffer, Scope::Guild(gid), user, e);
    let job = ScrubView {
        scope: Scope::Guild(gid),
        user_id: user,
        user_name: guild_of(s.consent, gid).opted_users[user],
    };
    if !s.pending_scrubs.contains(job) {
        assert(t.pending_scrubs[s.pending_scrubs.len() as int] == job);
    }
}

/// What happens on one server stays on it: opting in or out there changes no
/// other server's record, no other scope's messages and no session outside the
/// server's channels.
pub proof fn opting_is_per_server(
    s: SharedView,
    gid: u64,
    user: Seq<char>,
    name: Seq<char>,
    other: u64,
    e: crate::buffer::MsgEvent,
    ch: Seq<char>,
)
    requires
        other != gid,
    ensures
        guild_of(opted_in(s, gid, user, name).consent, other) == guild_of(s.consent, other),
        guild_of(opted_out(s, gid, user).consent, other) == guild_of(s.consent, other),
        s.buffer.ring.contains(e) && e.scope != Scope::Guild(gid) ==> opted_out(
            s,
            gid,
            user,
        ).buffer.ring.contains(e),
        !guild_of(s.consent, gid).active_channels.contains(ch) ==> crate::state::session_of(
            opted_out(s, gid, user).sessions,
            ch,
        ) == crate::state::session_of(s.sessions, ch),
        opted_out(s, gid, user).behaviors == s.behaviors,
        opted_out(s, gid, user).tokens == s.tokens,
{
    crate::buffer::purge_user_is_scoped(s.buffer, Scope::Guild(gid), user, e);
}

/// Opting out right after opting in for the first time leaves the server's
/// list of opted-in people as it was.
pub proof fn opt_out_undoes_opt_in(s: SharedView, gid: u64, user: Seq<char>, name: Seq<char>)
    requires
        !is_opted(s, gid, user),
    ensures
        guild_of(opted_out(opted_in(s, gid, user, name), gid, user).consent, gid) == guild_of(
            s.consent,
            gid,
        ),
{
    let t = opted_out(opted_in(s, gid, user, name), gid, user);
    assert(guild_of(t.consent, gid) =~= guild_of(s.consent, gid));
}

/// A server's record is what is kept of it; a server of which nothing is kept
/// has nobody opted in, no channel inhabited, no post and nobody exempt.
pub proof fn records_are_per_server(c: Map<u64, GuildView>, gid: u64, s: SharedView, user: Seq<char>)
    ensures
        c.contains_key(gid) ==> guild_of(c, gid) == c[gid],
        !c.contains_key(gid) ==> {
            let g = guild_of(c, gid);
            &&& g.opted_users.dom() == Set::<Seq<char>>::empty()
            &&& g.active_channels == Set::<Seq<char>>::empty()
            &&& g.grandfathered == Set::<Seq<char>>::empty()
            &&& g.consent_post is None
        },
        is_opted(s, gid, user) <==> s.consent.contains_key(gid)
            && s.consent[gid].opted_users.contains_key(user),
{
    assert(no_consent().opted_users.dom() =~= Set::empty());
}

/// Opting in puts the person on the server's list under the name given, and
/// changes nothing else at all.
pub proof fn opt_in_changes_one_entry(
    s: SharedView,
    gid: u64,
    user: Seq<char>,
    name: Seq<char>,
    other: u64,
)
    ensures
        ({
            let t = opted_in(s, gid, user, name);
            let before = guild_of(s.consent, gid);
            let after = t.consent[gid];
            &&& t == (SharedView { consent: t.consent, ..s })
            &&& t.consent.contains_key(gid)
            &&& after.opted_users == before.opted_users.insert(user, name)
            &&& after.active_channels == before.active_channels
            &&& after.consent_post == before.consent_post
            &&& after.grandfathered == before.grandfathered
            &&& other != gid ==> t.consent.contains_key(other) == s.consent.contains_key(other)
                && (s.consent.contains_key(other) ==> t.consent[other] == s.consent[other])
        }),
{
}

/// Opting out takes the person, and no one else, off the server's list, and
/// leaves its channels, its post and whom the operator opted in. What it does
/// besides, it does only to who was opted in: for anyone else nothing changes.
pub proof fn opt_out_changes_one_entry(
    s: SharedView,
    gid: u64,
    user: Seq<char>,
    other: u64,
    ch: Seq<char>,
)
    ensures
        ({
            let t = opted_out(s, gid, user);
            let before = guild_of(s.consent, gid);
            let after = guild_of(t.consent, gid);
            &&& after.opted_users == before.opted_users.remove(user)
            &&& after.active_channels == before.active_channels
            &&& after.consent_post == before.consent_post
            &&& after.grandfathered == before.grandfathered
            &&& other != gid ==> guild_of(t.consent, other) == guild_of(s.consent, other)
            &&& t.cfg == s.cfg && t.behaviors == s.behaviors && t.tokens == s.tokens
            &&& t.typing_active == s.typing_active && t.typing_waiting == s.typing_waiting
            &&& t.bot_id == s.bot_id && t.post_search == s.post_search
            &&& t.buffer.next_seq == s.buffer.next_seq && t.buffer.delivered == s.buffer.delivered
            &&& t.sessions.contains_key(ch) <==> s.sessions.contains_key(ch) && !(is_opted(
                s,
                gid,
                user,
            ) && before.active_channels.contains(ch))
            &&& t.sessions.contains_key(ch) ==> t.sessions[ch] == s.sessions[ch]
            &&& !is_opted(s, gid, user) ==> t == (SharedView { consent: t.consent, ..s })
        }),
{
    let before = guild_of(s.consent, gid).opted_users;
    if !before.contains_key(user) {
        assert(before.remove(user) =~= before);
    }
}

/// A scrub that is queued waits behind those that wait already, each of which
/// stays where it is, and none waits twice.
pub proof fn scrubs_queue_up(q: Seq<ScrubView>, job: ScrubView)
    ensures
        queued(q, job).take(q.len() as int) == q,
        queued(q, job).contains(job),
        queued(q, job).len() <= q.len() + 1,
        q.contains(job) ==> queued(q, job) == q,
        q.no_duplicates() ==> queued(q, job).no_duplicates(),
{
    let r = queued(q, job);
    assert(r.take(q.len() as int) =~= q);
    if !q.contains(job) {
        assert(r[q.len() as int] == job);
    }
}

} // verus!
