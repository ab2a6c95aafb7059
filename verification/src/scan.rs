//! Reading who reacted to a consent post: the post first, then each of its
//! reactions, page by page. Only a reading that got to its end counts.

use vstd::prelude::*;

use crate::post::own_id;
use crate::reconcile::Reactors;
use crate::state::{Shared, SharedView};
use crate::text;
use crate::text::decimal;

verus! {

/// How many of those who reacted are read at a time.
pub const PAGE: u8 = 100;

/// A user who reacted.
pub struct Reactor {
    pub id: u64,
    pub name: String,
    pub is_bot: bool,
}

/// How far a reading has got.
#[derive(Clone, Copy, PartialEq, Eq, Structural, Debug)]
pub enum Stage {
    /// The post is to be fetched.
    Start,
    /// The pages of its reactions are being read.
    Reading,
    /// All has been read.
    Complete,
    /// Something could not be read.
    Failed,
}

/// A reading of the reactions to a post.
pub struct Scan {
    stage: Stage,
    /// The bot's own id when the post was fetched.
    bot_id: u64,
    /// How many different reactions the post carries.
    reactions: usize,
    /// How many of them have been read to the end.
    at: usize,
    reacted: Reactors,
}

pub struct ScanView {
    pub stage: Stage,
    pub bot_id: u64,
    pub reactions: usize,
    pub at: usize,
    pub reacted: Map<Seq<char>, Seq<char>>,
}

impl View for Scan {
    type V = ScanView;

    closed spec fn view(&self) -> ScanView {
        ScanView {
            stage: self.stage,
            bot_id: self.bot_id,
            reactions: self.reactions,
            at: self.at,
            reacted: self.reacted@,
        }
    }
}

/// What a reading learns. `None` stands for what could not be fetched.
pub enum ScanEvent {
    /// The post, and how many different reactions it carries.
    Post(Option<usize>),
    /// A page of the users of the reaction being read.
    Page(Option<Vec<Reactor>>),
}

/// What a reading does next.
#[derive(Clone, Copy, PartialEq, Eq, Structural, Debug)]
pub enum ScanAction {
    Done,
    /// Fetch a page of the users of a reaction, behind the user `after`.
    Read { reaction: usize, after: Option<u64> },
}

/// A person's reaction counts; a bot's, and the bot's own, does not.
pub open spec fn is_person(bot_id: u64, u: Reactor) -> bool {
    !u.is_bot && u.id != bot_id
}

/// The people among the users of a row: user id -> name.
pub open spec fn people(bot_id: u64, users: Seq<Reactor>) -> Map<Seq<char>, Seq<char>>
    decreases users.len(),
{
    if users.len() == 0 {
        Map::empty()
    } else {
        let before = people(bot_id, users.drop_last());
        if is_person(bot_id, users.last()) {
            before.insert(decimal(users.last().id as nat), users.last().name@)
        } else {
            before
        }
    }
}

/// A full page may have another one behind it.
pub open spec fn is_full(users: Seq<Reactor>) -> bool {
    users.len() >= PAGE
}

/// A reading before its first step.
pub open spec fn scan_start() -> ScanView {
    ScanView {
        stage: Stage::Start,
        bot_id: 0,
        reactions: 0,
        at: 0,
        reacted: Map::empty(),
    }
}

/// A reading that failed.
pub open spec fn scan_failed(v: ScanView) -> ScanView {
    ScanView { stage: Stage::Failed, ..v }
}

/// A reading that has come to the end of a reaction.
pub open spec fn reaction_read(v: ScanView) -> ScanView {
    if v.at + 1 < v.reactions {
        ScanView { at: (v.at + 1) as usize, ..v }
    } else {
        ScanView { stage: Stage::Complete, at: v.reactions, ..v }
    }
}

/// A reading after a step. One that is over stays as it is.
pub open spec fn scan_after(s: SharedView, v: ScanView, event: ScanEvent) -> ScanView {
    match (v.stage, event) {
        (Stage::Start, ScanEvent::Post(Some(n))) => ScanView {
            stage: if n > 0 {
                Stage::Reading
            } else {
                Stage::Complete
            },
            bot_id: own_id(s),
            reactions: n,
            ..v
        },
        (Stage::Reading, ScanEvent::Page(Some(users))) => {
            let w = ScanView {
                reacted: v.reacted.union_prefer_right(people(v.bot_id, users@)),
                ..v
            };
            if is_full(users@) {
                w
            } else {
                reaction_read(w)
            }
        },
        (Stage::Start, _) => scan_failed(v),
        (Stage::Reading, _) => scan_failed(v),
        (Stage::Complete, _) => v,
        (Stage::Failed, _) => v,
    }
}

/// What a reading does after a step: it reads on behind a full page, or the next
/// reaction from its first page on.
pub open spec fn scan_action(s: SharedView, v: ScanView, event: ScanEvent) -> ScanAction {
    let w = scan_after(s, v, event);
    if w.stage == Stage::Reading {
        ScanAction::Read {
            reaction: w.at,
            after: match event {
                ScanEvent::Page(Some(users)) => if is_full(users@) {
                    Some(users@.last().id)
                } else {
                    None
                },
                _ => None,
            },
        }
    } else {
        ScanAction::Done
    }
}

proof fn lemma_people_split(bot_id: u64, users: Seq<Reactor>, i: int, start: Map<Seq<char>, Seq<char>>)
    requires
        0 <= i < users.len(),
    ensures
        start.union_prefer_right(people(bot_id, users.take(i + 1))) == (if is_person(
            bot_id,
            users[i],
        ) {
            start.union_prefer_right(people(bot_id, users.take(i))).insert(
                decimal(users[i].id as nat),
                users[i].name@,
            )
        } else {
            start.union_prefer_right(people(bot_id, users.take(i)))
        }),
{
    assert(users.take(i + 1).drop_last() =~= users.take(i));
    let before = people(bot_id, users.take(i));
    let (k, n) = (decimal(users[i].id as nat), users[i].name@);
    assert(start.union_prefer_right(before.insert(k, n)) =~= start.union_prefer_right(
        before,
    ).insert(k, n));
}

impl Scan {
    /// A reading before its first step.
    pub fn new() -> (scan: Self)
        ensures
            scan@ == scan_start(),
    {
        Scan {
            stage: Stage::Start,
            bot_id: 0,
            reactions: 0,
            at: 0,
            reacted: Reactors::new(),
        }
    }

    /// Who reacted, where all has been read.
    pub fn outcome(self) -> (res: Option<Reactors>)
        ensures
            match res {
                Some(r) => self@.stage == Stage::Complete && r@ == self@.reacted,
                None => self@.stage != Stage::Complete,
            },
    {
        match self.stage {
            Stage::Complete => Some(self.reacted),
            _ => None,
        }
    }

    fn note_page(&mut self, users: &Vec<Reactor>)
        ensures
            final(self)@ == (ScanView {
                reacted: old(self)@.reacted.union_prefer_right(
                    people(old(self)@.bot_id, users@),
                ),
                ..old(self)@
            }),
    {
        let mut i: usize = 0;
        let ghost start = self@.reacted;
        assert(users@.take(0) =~= Seq::empty());
        assert(start.union_prefer_right(people(self@.bot_id, users@.take(0))) =~= start);
        while i < users.len()
            invariant
                i <= users@.len(),
                start == old(self)@.reacted,
                self@ == (ScanView {
                    reacted: start.union_prefer_right(
                        people(old(self)@.bot_id, users@.take(i as int)),
                    ),
                    ..old(self)@
                }),
            decreases users@.len() - i,
        {
            let u = &users[i];
            proof {
                lemma_people_split(self@.bot_id, users@, i as int, start);
            }
            if !u.is_bot && u.id != self.bot_id {
                self.reacted.insert(text::u64_to_string(u.id), u.name.clone());
            }
            i += 1;
        }
        assert(users@.take(i as int) =~= users@);
    }
}

/// One step of a reading.
pub fn scan_step(shared: &Shared, scan: &mut Scan, event: ScanEvent) -> (a: ScanAction)
    ensures
        a == scan_action(shared@, old(scan)@, event),
        final(scan)@ == scan_after(shared@, old(scan)@, event),
{
    match scan.stage {
        Stage::Start => match event {
            ScanEvent::Post(Some(n)) => {
                scan.bot_id = match shared.bot_id {
                    Some(b) => b,
                    None => 0,
                };
                scan.reactions = n;
                if n > 0 {
                    scan.stage = Stage::Reading;
                    ScanAction::Read { reaction: scan.at, after: None }
                } else {
                    scan.stage = Stage::Complete;
                    ScanAction::Done
                }
            },
            _ => {
                scan.stage = Stage::Failed;
                ScanAction::Done
            },
        },
        Stage::Reading => match event {
            ScanEvent::Page(Some(users)) => {
                scan.note_page(&users);
                let n: usize = users.len();
                if n >= PAGE as usize {
                    ScanAction::Read { reaction: scan.at, after: Some(users[n - 1].id) }
                } else if scan.at < scan.reactions && scan.reactions - scan.at > 1 {
                    scan.at = scan.at + 1;
                    ScanAction::Read { reaction: scan.at, after: None }
                } else {
                    scan.stage = Stage::Complete;
                    scan.at = scan.reactions;
                    ScanAction::Done
                }
            },
            _ => {
                scan.stage = Stage::Failed;
                ScanAction::Done
            },
        },
        Stage::Complete => ScanAction::Done,
        Stage::Failed => ScanAction::Done,
    }
}

// ---- whole readings ----

/// A reading after a row of steps.
pub open spec fn scanned(s: SharedView, events: Seq<ScanEvent>) -> ScanView
    decreases events.len(),
{
    if events.len() == 0 {
        scan_start()
    } else {
        scan_after(s, scanned(s, events.drop_last()), events.last())
    }
}

/// What is learnt comes of what was done: the post first, then pages for as long
/// as there is something to read.
pub open spec fn comes_of(stage: Stage, event: ScanEvent) -> bool {
    match stage {
        Stage::Start => event is Post,
        Stage::Reading => event is Page,
        Stage::Complete => false,
        Stage::Failed => false,
    }
}

/// A row of steps that can be made one after another.
pub open spec fn can_scan(s: SharedView, events: Seq<ScanEvent>) -> bool
    decreases events.len(),
{
    events.len() == 0 || (can_scan(s, events.drop_last()) && comes_of(
        scanned(s, events.drop_last()).stage,
        events.last(),
    ))
}

/// A fetch that failed.
pub open spec fn is_failure(event: ScanEvent) -> bool {
    match event {
        ScanEvent::Post(n) => n is None,
        ScanEvent::Page(p) => p is None,
    }
}

/// The users of all pages, one page after another.
pub open spec fn all_users(events: Seq<ScanEvent>) -> Seq<Reactor>
    decreases events.len(),
{
    if events.len() == 0 {
        Seq::empty()
    } else {
        match events.last() {
            ScanEvent::Page(Some(users)) => all_users(events.drop_last()) + users@,
            _ => all_users(events.drop_last()),
        }
    }
}

/// How many of the pages end their reaction.
pub open spec fn short_pages(events: Seq<ScanEvent>) -> nat
    decreases events.len(),
{
    if events.len() == 0 {
        0
    } else {
        match events.last() {
            ScanEvent::Page(Some(users)) => short_pages(events.drop_last()) + if is_full(users@) {
                0nat
            } else {
                1nat
            },
            _ => short_pages(events.drop_last()),
        }
    }
}

proof fn lemma_people_append(bot_id: u64, a: Seq<Reactor>, b: Seq<Reactor>)
    ensures
        people(bot_id, a + b) == people(bot_id, a).union_prefer_right(people(bot_id, b)),
    decreases b.len(),
{
    if b.len() == 0 {
        assert(a + b =~= a);
        assert(people(bot_id, a).union_prefer_right(people(bot_id, b)) =~= people(bot_id, a));
    } else {
        lemma_people_append(bot_id, a, b.drop_last());
        lemma_people_split(bot_id, b, b.len() - 1, people(bot_id, a));
        assert(b.take(b.len() as int) =~= b);
        assert(b.take(b.len() - 1) =~= b.drop_last());
        assert((a + b).drop_last() =~= a + b.drop_last());
    }
}

proof fn lemma_people_members(bot_id: u64, users: Seq<Reactor>, user: Seq<char>)
    ensures
        people(bot_id, users).contains_key(user) <==> exists|i: int|
            0 <= i < users.len() && is_person(bot_id, #[trigger] users[i]) && decimal(
                users[i].id as nat,
            ) == user,
    decreases users.len(),
{
    if users.len() > 0 {
        let t = users.drop_last();
        lemma_people_members(bot_id, t, user);
        if people(bot_id, t).contains_key(user) {
            let i = choose|i: int|
                0 <= i < t.len() && is_person(bot_id, #[trigger] t[i]) && decimal(t[i].id as nat)
                    == user;
            assert(users[i] == t[i]);
        }
        if exists|i: int|
            0 <= i < users.len() && is_person(bot_id, #[trigger] users[i]) && decimal(
                users[i].id as nat,
            ) == user {
            let i = choose|i: int|
                0 <= i < users.len() && is_person(bot_id, #[trigger] users[i]) && decimal(
                    users[i].id as nat,
                ) == user;
            if i < t.len() {
                assert(t[i] == users[i]);
            }
        }
    }
}

/// What a reading has come to: before its end or at it, it holds the people of
/// all pages so far and has read as many reactions to the end as pages were
/// short; and it has failed exactly where a fetch has.
proof fn lemma_scanned(s: SharedView, events: Seq<ScanEvent>)
    requires
        can_scan(s, events),
    ensures
        ({
            let v = scanned(s, events);
            let failed = exists|i: int| 0 <= i < events.len() && is_failure(#[trigger] events[i]);
            &&& (v.stage == Stage::Failed) == failed
            &&& v.stage == Stage::Start <==> events.len() == 0
            &&& v.stage == Stage::Start ==> v == scan_start()
            &&& v.stage == Stage::Reading ==> v.at < v.reactions
            &&& v.stage == Stage::Complete ==> v.at == v.reactions
            &&& v.stage == Stage::Reading || v.stage == Stage::Complete ==> {
                &&& v.bot_id == own_id(s)
                &&& v.at == short_pages(events)
                &&& v.reacted == people(own_id(s), all_users(events))
                &&& events[0] == ScanEvent::Post(Some(v.reactions))
            }
        }),
    decreases events.len(),
{
    if events.len() > 0 {
        let t = events.drop_last();
        lemma_scanned(s, t);
        assert(forall|i: int| 0 <= i < t.len() ==> t[i] == events[i]);
        let failed = exists|i: int| 0 <= i < events.len() && is_failure(#[trigger] events[i]);
        if is_failure(events.last()) {
            assert(is_failure(events[events.len() - 1]));
        } else if failed {
            let i = choose|i: int| 0 <= i < events.len() && is_failure(#[trigger] events[i]);
            assert(is_failure(t[i]));
        }
        match events.last() {
            ScanEvent::Page(Some(users)) => {
                lemma_people_append(own_id(s), all_users(t), users@);
            },
            _ => {
                if t.len() == 0 {
                    reveal_with_fuel(short_pages, 2);
                    reveal_with_fuel(all_users, 2);
                }
            },
        }
    }
}

/// Fails safe: a fetch that fails, at any point, leaves nothing to reconcile
/// with.
pub proof fn failed_fetch_reads_nothing(s: SharedView, events: Seq<ScanEvent>, i: int)
    requires
        can_scan(s, events),
        0 <= i < events.len(),
        is_failure(events[i]),
    ensures
        scanned(s, events).stage == Stage::Failed,
{
    lemma_scanned(s, events);
}

/// A reading is complete only when no fetch failed and every reaction of the
/// post was read up to a page that is not full; it then holds exactly the people
/// of all pages, bots left out.
pub proof fn complete_reading_holds_everyone(
    s: SharedView,
    events: Seq<ScanEvent>,
    user: Seq<char>,
    i: int,
)
    requires
        can_scan(s, events),
        scanned(s, events).stage == Stage::Complete,
    ensures
        0 <= i < events.len() ==> !is_failure(events[i]),
        events[0] == ScanEvent::Post(Some(scanned(s, events).reactions)),
        short_pages(events) == scanned(s, events).reactions,
        scanned(s, events).reacted == people(own_id(s), all_users(events)),
        scanned(s, events).reacted.contains_key(user) <==> exists|k: int|
            0 <= k < all_users(events).len() && is_person(own_id(s), #[trigger] all_users(events)[k])
                && decimal(all_users(events)[k].id as nat) == user,
{
    lemma_scanned(s, events);
    lemma_people_members(own_id(s), all_users(events), user);
}

/// The pages are read in turn: while something is left to read, the next page is
/// one of the reaction after those that were read to the end, and behind a full
/// page it is of the same reaction, behind the last user of that page.
pub proof fn pages_are_read_in_turn(s: SharedView, events: Seq<ScanEvent>)
    requires
        can_scan(s, events),
        events.len() > 0,
        scanned(s, events).stage == Stage::Reading,
    ensures
        ({
            let a = scan_action(s, scanned(s, events.drop_last()), events.last());
            &&& a matches ScanAction::Read { reaction, after }
            &&& reaction == short_pages(events)
            &&& reaction < scanned(s, events).reactions
            &&& after == match events.last() {
                ScanEvent::Page(Some(users)) => if is_full(users@) {
                    Some(users@.last().id)
                } else {
                    None
                },
                _ => None,
            }
        }),
{
    lemma_scanned(s, events);
}

/// A complete reading holds a person exactly where they are among the users of
/// the pages, are no bot and not the bot itself; and under the name that they
/// had last.
pub proof fn reading_holds_people_by_name(
    s: SharedView,
    events: Seq<ScanEvent>,
    k: int,
    user: Seq<char>,
)
    requires
        can_scan(s, events),
        scanned(s, events).stage == Stage::Complete,
    ensures
        ({
            let users = all_users(events);
            let me = match s.bot_id {
                Some(b) => b,
                None => 0,
            };
            let held = scanned(s, events).reacted;
            &&& 0 <= k < users.len() && !users[k].is_bot && users[k].id != me
                ==> held.contains_key(decimal(users[k].id as nat))
            &&& 0 <= k < users.len() && !users[k].is_bot && users[k].id != me && (forall|j: int|
                k < j < users.len() ==> (#[trigger] users[j]).id != users[k].id)
                ==> held[decimal(users[k].id as nat)] == users[k].name@
            &&& held.contains_key(user) ==> exists|j: int|
                0 <= j < users.len() && !(#[trigger] users[j]).is_bot && users[j].id != me
                    && decimal(users[j].id as nat) == user
        }),
{
    let users = all_users(events);
    let me = own_id(s);
    lemma_scanned(s, events);
    lemma_people_members(me, users, user);
    if 0 <= k < users.len() && !users[k].is_bot && users[k].id != me {
        assert(is_person(me, users[k]));
        lemma_people_members(me, users, decimal(users[k].id as nat));
        if forall|j: int| k < j < users.len() ==> (#[trigger] users[j]).id != users[k].id {
            lemma_last_name(me, users, k);
        }
    }
    if scanned(s, events).reacted.contains_key(user) {
        let j = choose|j: int|
            0 <= j < users.len() && is_person(me, #[trigger] users[j]) && decimal(
                users[j].id as nat,
            ) == user;
        assert(!users[j].is_bot && users[j].id != me);
    }
}

proof fn lemma_last_name(bot_id: u64, users: Seq<Reactor>, k: int)
    requires
        0 <= k < users.len(),
        is_person(bot_id, users[k]),
        forall|j: int| k < j < users.len() ==> (#[trigger] users[j]).id != users[k].id,
    ensures
        people(bot_id, users).contains_key(decimal(users[k].id as nat)),
        people(bot_id, users)[decimal(users[k].id as nat)] == users[k].name@,
    decreases users.len(),
{
    let t = users.drop_last();
    if k < t.len() {
        assert(t[k] == users[k]);
        assert forall|j: int| k < j < t.len() implies (#[trigger] t[j]).id != t[k].id by {
            assert(t[j] == users[j]);
        }
        lemma_last_name(bot_id, t, k);
        assert(users[users.len() - 1].id != users[k].id);
        if decimal(users.last().id as nat) == decimal(users[k].id as nat) {
            text::decimal_injective(users.last().id as nat, users[k].id as nat);
        }
    }
}

/// What the users of all pages are: those of each page, one page behind another.
pub proof fn pages_follow_each_other(events: Seq<ScanEvent>, users: Vec<Reactor>, n: Option<usize>)
    ensures
        all_users(Seq::empty()) == Seq::<Reactor>::empty(),
        all_users(events.push(ScanEvent::Page(Some(users)))) == all_users(events) + users@,
        all_users(events.push(ScanEvent::Page(None))) == all_users(events),
        all_users(events.push(ScanEvent::Post(n))) == all_users(events),
        short_pages(events.push(ScanEvent::Page(Some(users)))) == short_pages(events) + (if users@.len()
            < 100 {
            1nat
        } else {
            0nat
        }),
{
    assert(events.push(ScanEvent::Page(Some(users))).drop_last() =~= events);
    assert(events.push(ScanEvent::Page(None)).drop_last() =~= events);
    assert(events.push(ScanEvent::Post(n)).drop_last() =~= events);
}

/// How a reading goes on. It reads the first page of the first reaction once the
/// post is there, and is complete at once where the post carries none. A page of
/// a hundred users may have another one behind it, of the same reaction, from
/// its last user on; a shorter one is the last of its reaction, and the reading
/// goes on with the next reaction or, behind the last one, is complete. Whatever
/// could not be fetched ends it.
pub proof fn readings_go_page_by_page(
    s: SharedView,
    v: ScanView,
    n: usize,
    users: Vec<Reactor>,
    event: ScanEvent,
)
    ensures
        v.stage == Stage::Start && v.at == 0 ==> {
            let e = ScanEvent::Post(Some(n));
            &&& n == 0 ==> scan_after(s, v, e).stage == Stage::Complete && scan_action(s, v, e)
                == ScanAction::Done
            &&& n > 0 ==> scan_after(s, v, e).stage == Stage::Reading && scan_action(s, v, e) == (
            ScanAction::Read { reaction: 0, after: None })
            &&& scan_after(s, v, e).reactions == n
            &&& scan_after(s, v, e).bot_id == (match s.bot_id {
                Some(b) => b,
                None => 0,
            })
            &&& scan_after(s, v, e).reacted == v.reacted
        },
        v.stage == Stage::Reading && v.at < v.reactions ==> {
            let e = ScanEvent::Page(Some(users));
            let w = scan_after(s, v, e);
            &&& w.bot_id == v.bot_id && w.reactions == v.reactions
            &&& users@.len() >= 100 ==> w.stage == Stage::Reading && w.at == v.at && scan_action(
                s,
                v,
                e,
            ) == (ScanAction::Read {
                reaction: v.at,
                after: Some(users@[users@.len() - 1].id),
            })
            &&& users@.len() < 100 && v.at + 1 < v.reactions ==> w.stage == Stage::Reading && w.at
                == v.at + 1 && scan_action(s, v, e) == (ScanAction::Read {
                reaction: w.at,
                after: None,
            })
            &&& users@.len() < 100 && v.at + 1 == v.reactions ==> w.stage == Stage::Complete
                && scan_action(s, v, e) == ScanAction::Done
        },
        v.stage == Stage::Start || v.stage == Stage::Reading ==> {
            &&& scan_after(s, v, ScanEvent::Post(None)).stage == Stage::Failed
            &&& scan_after(s, v, ScanEvent::Page(None)).stage == Stage::Failed
            &&& scan_action(s, v, ScanEvent::Post(None)) == ScanAction::Done
            &&& scan_action(s, v, ScanEvent::Page(None)) == ScanAction::Done
        },
        v.stage == Stage::Complete || v.stage == Stage::Failed ==> scan_after(s, v, event) == v
            && scan_action(s, v, event) == ScanAction::Done,
{
}

} // verus!
