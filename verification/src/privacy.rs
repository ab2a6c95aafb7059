//! The promise that spans the daemon: whatever is buffered from a server is
//! there by consent, in every state that it comes to.

use vstd::prelude::*;

use crate::buffer::{
    purge_channel_is_exact, purge_user_is_scoped, target_of, wakeworthy_is_sound, MsgEvent,
};
use crate::consent::{guild_of, is_opted, opted_in, opted_out};
use crate::discord::{admitted, allowed, heard, ingested, IncomingMessage};
use crate::post::post_recorded;
use crate::reconcile::{all_out, reactors_in, reconciled};
use crate::rows::lemma_filter_members;
use crate::scope::Scope;
use crate::state::{SharedView, TurnView};
use crate::supervisor::{settled, BegunView, ReportView};
use crate::text::decimal;
use crate::tools::{channel_left, visible, HistoryMessage};

verus! {

/// Everything that is buffered may be.
pub open spec fn consented(s: SharedView) -> bool {
    forall|e: MsgEvent| #[trigger] s.buffer.ring.contains(e) ==> allowed(s, e)
}

/// Nothing is buffered when the daemon starts, so all that is may be.
pub proof fn nothing_is_buffered_at_first(s: SharedView)
    requires
        s.buffer.ring == Seq::<MsgEvent>::empty(),
    ensures
        consented(s),
{
}

/// Consent outlives everything that changes neither the consent records nor
/// what is buffered: handing messages out, recording a post, dropping
/// transcripts and settling turns.
pub proof fn consent_outlives_the_rest(
    s: SharedView,
    ch: Seq<char>,
    scope: Scope,
    gid: u64,
    post: (u64, u64),
    b: BegunView,
    token: Seq<char>,
    r: Option<ReportView>,
)
    requires
        consented(s),
    ensures
        consented(SharedView { buffer: s.buffer.taken(ch), ..s }),
        consented(post_recorded(s, gid, post.0, post.1)),
        consented(s.scope_dropped(scope)),
        consented(settled(s, ch, b, token, r)),
{
    lemma_same_consent(s, SharedView { buffer: s.buffer.taken(ch), ..s });
    lemma_same_consent(s, s.scope_dropped(scope));
    lemma_same_consent(s, settled(s, ch, b, token, r));
    lemma_same_consent(s, post_recorded(s, gid, post.0, post.1));
}

/// Where nobody lost consent and no channel went dormant, nothing that may be
/// buffered has to leave.
proof fn lemma_same_consent(s: SharedView, t: SharedView)
    requires
        consented(s),
        t.buffer.ring == s.buffer.ring,
        forall|g: u64, user: Seq<char>| #[trigger] is_opted(s, g, user) ==> is_opted(t, g, user),
        forall|g: u64, ch: Seq<char>|
            guild_of(s.consent, g).active_channels.contains(ch) ==> #[trigger] guild_of(
                t.consent,
                g,
            ).active_channels.contains(ch),
    ensures
        consented(t),
{
    assert forall|e: MsgEvent| #[trigger] t.buffer.ring.contains(e) implies allowed(t, e) by {
        assert(s.buffer.ring.contains(e));
        assert(allowed(s, e));
    }
}

/// Consent outlives people opting in and out: who opts out takes what they
/// wrote there along.
pub proof fn consent_outlives_opting(s: SharedView, gid: u64, user: Seq<char>, name: Seq<char>)
    requires
        consented(s),
    ensures
        consented(opted_in(s, gid, user, name)),
        consented(opted_out(s, gid, user)),
{
    lemma_same_consent(s, opted_in(s, gid, user, name));
    let t = opted_out(s, gid, user);
    assert forall|e: MsgEvent| #[trigger] t.buffer.ring.contains(e) implies allowed(t, e) by {
        purge_user_is_scoped(s.buffer, Scope::Guild(gid), user, e);
        assert(s.buffer.ring.contains(e));
        assert(allowed(s, e));
    }
}

proof fn lemma_all_out_consented(s: SharedView, gid: u64, users: Seq<Seq<char>>)
    requires
        consented(s),
    ensures
        consented(all_out(s, gid, users)),
    decreases users.len(),
{
    if users.len() > 0 {
        lemma_all_out_consented(s, gid, users.drop_last());
        consent_outlives_opting(
            all_out(s, gid, users.drop_last()),
            gid,
            users.last(),
            Seq::empty(),
        );
    }
}

/// Consent outlives a reconciliation.
pub proof fn consent_outlives_reconciling(
    s: SharedView,
    gid: u64,
    reacted: Map<Seq<char>, Seq<char>>,
    left: Seq<Seq<char>>,
)
    requires
        consented(s),
    ensures
        consented(reconciled(s, gid, reacted, left)),
{
    lemma_same_consent(s, reactors_in(s, gid, reacted));
    lemma_all_out_consented(reactors_in(s, gid, reacted), gid, left);
}

/// Consent outlives leaving a channel: nothing of the channel stays buffered.
pub proof fn consent_outlives_leaving(s: SharedView, scope: Scope, ch: Seq<char>)
    requires
        consented(s),
    ensures
        consented(channel_left(s, scope, ch)),
{
    let t = channel_left(s, scope, ch);
    assert forall|e: MsgEvent| #[trigger] t.buffer.ring.contains(e) implies allowed(t, e) by {
        purge_channel_is_exact(s.buffer, ch, e);
        assert(s.buffer.ring.contains(e));
        assert(allowed(s, e));
    }
}

/// Consent outlives what comes in: looking at a message buffers nothing, and
/// whatever comes to the buffer is stored only where it may be, however long
/// after it was looked at.
pub proof fn consent_outlives_messages(s: SharedView, m: IncomingMessage, e: MsgEvent)
    requires
        consented(s),
    ensures
        consented(admitted(s, m)),
        consented(ingested(s, e)),
{
    lemma_same_consent(s, admitted(s, m));
    let t = ingested(s, e);
    assert forall|x: MsgEvent| #[trigger] t.buffer.ring.contains(x) implies allowed(t, x) by {
        let i = choose|i: int| 0 <= i < t.buffer.ring.len() && t.buffer.ring[i] == x;
        if !allowed(s, e) {
            assert(s.buffer.ring.contains(x));
        } else if i < t.buffer.ring.len() - 1 {
            let shift: int = if s.buffer.ring.len() >= crate::buffer::CAP { 1 } else { 0 };
            assert(s.buffer.ring[i + shift] == x);
            assert(s.buffer.ring.contains(x));
            assert(allowed(s, x));
        }
    }
}

/// Consent outlives purging: what stays was there before.
pub proof fn consent_outlives_purging(s: SharedView, scope: Scope, user: Seq<char>, ch: Seq<char>)
    requires
        consented(s),
    ensures
        consented(SharedView { buffer: s.buffer.without_channel(ch), ..s }),
        consented(SharedView { buffer: s.buffer.without_user(scope, user), ..s }),
{
    let t = SharedView { buffer: s.buffer.without_channel(ch), ..s };
    assert forall|e: MsgEvent| #[trigger] t.buffer.ring.contains(e) implies allowed(t, e) by {
        purge_channel_is_exact(s.buffer, ch, e);
        assert(allowed(s, e));
    }
    let u = SharedView { buffer: s.buffer.without_user(scope, user), ..s };
    assert forall|e: MsgEvent| #[trigger] u.buffer.ring.contains(e) implies allowed(u, e) by {
        purge_user_is_scoped(s.buffer, scope, user, e);
        assert(allowed(s, e));
    }
}

/// What can happen to the state of the daemon.
pub enum Change {
    OptedIn { gid: u64, user: Seq<char>, name: Seq<char> },
    OptedOut { gid: u64, user: Seq<char> },
    Reconciled { gid: u64, reacted: Map<Seq<char>, Seq<char>>, left: Seq<Seq<char>> },
    ChannelLeft { scope: Scope, ch: Seq<char> },
    LookedAt { m: IncomingMessage },
    Ingested { e: MsgEvent },
    Taken { ch: Seq<char> },
    ChannelPurged { ch: Seq<char> },
    UserPurged { scope: Scope, user: Seq<char> },
    PostRecorded { gid: u64, channel: u64, message: u64 },
    /// Whatever changes neither a consent record nor the buffer: sessions,
    /// tokens, behaviors, waiting scrubs, typing, the bot's own id.
    Other { t: SharedView },
}

/// The state after a change.
pub open spec fn changed(s: SharedView, c: Change) -> SharedView {
    match c {
        Change::OptedIn { gid, user, name } => opted_in(s, gid, user, name),
        Change::OptedOut { gid, user } => opted_out(s, gid, user),
        Change::Reconciled { gid, reacted, left } => reconciled(s, gid, reacted, left),
        Change::ChannelLeft { scope, ch } => channel_left(s, scope, ch),
        Change::LookedAt { m } => admitted(s, m),
        Change::Ingested { e } => ingested(s, e),
        Change::Taken { ch } => SharedView { buffer: s.buffer.taken(ch), ..s },
        Change::ChannelPurged { ch } => SharedView { buffer: s.buffer.without_channel(ch), ..s },
        Change::UserPurged { scope, user } => SharedView {
            buffer: s.buffer.without_user(scope, user),
            ..s
        },
        Change::PostRecorded { gid, channel, message } => post_recorded(
            s,
            gid,
            channel,
            message,
        ),
        Change::Other { t } => SharedView { consent: s.consent, buffer: s.buffer, ..t },
    }
}

/// The state after a row of changes.
pub open spec fn after(s: SharedView, changes: Seq<Change>) -> SharedView
    decreases changes.len(),
{
    if changes.len() == 0 {
        s
    } else {
        changed(after(s, changes.drop_last()), changes.last())
    }
}

/// In every state that the daemon comes to, whatever happens in whatever order,
/// all that is buffered may be.
pub proof fn every_state_has_consent(s: SharedView, changes: Seq<Change>)
    requires
        s.buffer.ring == Seq::<MsgEvent>::empty(),
    ensures
        consented(after(s, changes)),
    decreases changes.len(),
{
    if changes.len() > 0 {
        let t = after(s, changes.drop_last());
        every_state_has_consent(s, changes.drop_last());
        match changes.last() {
            Change::OptedIn { gid, user, name } => consent_outlives_opting(t, gid, user, name),
            Change::OptedOut { gid, user } => consent_outlives_opting(t, gid, user, user),
            Change::Reconciled { gid, reacted, left } => consent_outlives_reconciling(
                t,
                gid,
                reacted,
                left,
            ),
            Change::ChannelLeft { scope, ch } => consent_outlives_leaving(t, scope, ch),
            Change::LookedAt { m } => lemma_same_consent(t, admitted(t, m)),
            Change::Ingested { e } => {
                let m: IncomingMessage = arbitrary();
                consent_outlives_messages(t, m, e);
            },
            Change::ChannelPurged { ch } => consent_outlives_purging(
                t,
                Scope::Guild(0),
                ch,
                ch,
            ),
            Change::UserPurged { scope, user } => consent_outlives_purging(
                t,
                scope,
                user,
                user,
            ),
            _ => lemma_same_consent(t, changed(t, changes.last())),
        }
    }
}

/// A session sees nothing without consent: what its channel is handed may be
/// buffered, and is of that channel.
pub proof fn sessions_see_only_consent(s: SharedView, ch: Seq<char>, i: int)
    requires
        consented(s),
        0 <= i < s.buffer.undelivered(ch).len(),
    ensures
        allowed(s, s.buffer.undelivered(ch)[i]),
        s.buffer.undelivered(ch)[i].channel_id@ == ch,
{
    lemma_filter_members(s.buffer.ring, s.buffer.awaits(ch));
    assert(s.buffer.ring.contains(s.buffer.undelivered(ch)[i]));
}

/// Nothing wakes a session without consent: every channel that is woken holds a
/// message by a person, which is a DM or by someone who is opted in there.
pub proof fn only_consent_wakes(s: SharedView, i: int)
    requires
        consented(s),
        0 <= i < s.buffer.wakeworthy(s.behaviors).len(),
    ensures
        exists|k: int|
            {
                &&& 0 <= k < s.buffer.ring.len()
                &&& target_of(#[trigger] s.buffer.ring[k]) == s.buffer.wakeworthy(s.behaviors)[i]
                &&& !s.buffer.ring[k].author_is_bot
                &&& allowed(s, s.buffer.ring[k])
            },
{
    wakeworthy_is_sound(s.buffer, s.behaviors, i, i);
    let k = choose|k: int|
        0 <= k < s.buffer.ring.len() && s.buffer.wakes(#[trigger] s.buffer.ring[k], s.behaviors)
            && s.buffer.wakeworthy(s.behaviors)[i] == target_of(s.buffer.ring[k])
            && !s.buffer.ring[k].author_is_bot;
    assert(s.buffer.ring.contains(s.buffer.ring[k]));
}

/// Who opted out is gone: on that server nothing more of what they write is
/// heard, nothing they wrote is in the history that a session sees, and none of
/// it is buffered.
pub proof fn opted_out_person_is_gone(
    s: SharedView,
    gid: u64,
    user: u64,
    m: IncomingMessage,
    h: HistoryMessage,
    ctx: TurnView,
    e: MsgEvent,
)
    requires
        is_opted(s, gid, decimal(user as nat)),
        m.guild_id == Some(gid) && m.author_id == user && !m.author_is_bot,
        h.author_id == user && !h.author_is_bot,
        s.bot_id != Some(user),
        ctx.scope == Scope::Guild(gid) && !ctx.is_dm,
    ensures
        ({
            let t = opted_out(s, gid, decimal(user as nat));
            &&& !heard(t, m)
            &&& !visible(t, ctx)(h)
            &&& t.buffer.ring.contains(e) ==> !(e.scope == Scope::Guild(gid) && e.author_id@
                == decimal(user as nat))
        }),
{
    purge_user_is_scoped(s.buffer, Scope::Guild(gid), decimal(user as nat), e);
}

} // verus!
