//! The bot's self-editable layer: one persona file and one behavior record
//! per scope (server or DM). A persona is the only memory that survives a
//! session reset.

use vstd::prelude::*;

use crate::assoc::{AssocMap, Copied};
use crate::prompts;
use crate::prompts::{first_persona, PERSONA_HEAD, PERSONA_TAIL};
use crate::scope::{scope_name, scope_names_distinct, Scope};
use crate::text;
use crate::text::{decimal, is_digit, opt_text, texts};

verus! {

/// All = any opted-in human message wakes; Mentions = only @mentions and DMs.
#[derive(Clone, Copy, PartialEq, Eq, Structural, Debug)]
pub enum RespondTo {
    All,
    Mentions,
}

impl Default for RespondTo {
    fn default() -> (r: Self)
        ensures
            r == RespondTo::All,
    {
        RespondTo::All
    }
}

/// Per-scope behavior settings, adjustable from within a session.
pub struct Behavior {
    /// Channel ids that may wake the bot; empty = all inhabited. DMs always wake.
    pub watched_channels: Vec<String>,
    pub respond_to: RespondTo,
    /// Wake on a timer even when quiet. 0 = off.
    pub idle_wake_minutes: u64,
}

pub struct BehaviorView {
    pub watched_channels: Seq<Seq<char>>,
    pub respond_to: RespondTo,
    pub idle_wake_minutes: u64,
}

impl View for Behavior {
    type V = BehaviorView;

    open spec fn view(&self) -> BehaviorView {
        BehaviorView {
            watched_channels: texts(self.watched_channels@),
            respond_to: self.respond_to,
            idle_wake_minutes: self.idle_wake_minutes,
        }
    }
}

/// All channels watched, every opted-in message wakes, no idle timer.
pub open spec fn default_behavior() -> BehaviorView {
    BehaviorView {
        watched_channels: Seq::empty(),
        respond_to: RespondTo::All,
        idle_wake_minutes: 0,
    }
}

impl Default for Behavior {
    fn default() -> (b: Self)
        ensures
            b@ == default_behavior(),
    {
        let b = Behavior {
            watched_channels: Vec::new(),
            respond_to: RespondTo::All,
            idle_wake_minutes: 0,
        };
        assert(b@.watched_channels =~= Seq::empty());
        b
    }
}

impl Copied for Behavior {
    fn copied(&self) -> (res: Self) {
        Behavior {
            watched_channels: text::copy_texts(&self.watched_channels),
            respond_to: self.respond_to,
            idle_wake_minutes: self.idle_wake_minutes,
        }
    }
}

/// The behavior of each scope that has one of its own.
pub type Behaviors = AssocMap<Scope, Behavior>;

/// The behavior of a scope: its own, or the default.
pub open spec fn behavior_of(m: Map<Scope, BehaviorView>, scope: Scope) -> BehaviorView {
    if m.contains_key(scope) {
        m[scope]
    } else {
        default_behavior()
    }
}

/// The behavior of a scope: its own, or the default.
pub fn behavior_for(behaviors: &Behaviors, scope: Scope) -> (b: Behavior)
    ensures
        b@ == behavior_of(behaviors@, scope),
{
    match behaviors.get(&scope) {
        Some(b) => b.copied(),
        None => Behavior::default(),
    }
}

/// The name of a scope's persona file.
pub open spec fn persona_file(scope: Scope) -> Seq<char> {
    scope_name(scope) + ".md"@
}

/// The name of a scope's persona file. A scope is written as a guild id or
/// `dm-` and a channel id, so the name is safe in any file system.
pub fn file(scope: Scope) -> (name: String)
    ensures
        name@ == persona_file(scope),
{
    text::join2(scope.to_string().as_str(), ".md")
}

/// The persona of a scope, from what its file holds, if there is one.
pub open spec fn persona_text(held: Option<Seq<char>>, model: Seq<char>) -> Seq<char> {
    match held {
        Some(t) => t,
        None => first_persona(model),
    }
}

/// The persona of a scope, from what its file holds, if there is one.
pub fn read(held: Option<String>, model: &str) -> (persona: String)
    ensures
        persona@ == persona_text(opt_text(held), model@),
{
    match held {
        Some(t) => t,
        None => prompts::default_persona(model),
    }
}

/// Each scope has a persona file of its own, whose name holds no character but
/// digits, lower-case letters, a hyphen and a dot: it leads to no other directory.
pub proof fn persona_files_are_apart(a: Scope, b: Scope, i: int)
    requires
        0 <= i < persona_file(a).len(),
    ensures
        persona_file(a) == persona_file(b) ==> a == b,
        is_digit(persona_file(a)[i]) || 'a' <= persona_file(a)[i] <= 'z' || persona_file(a)[i]
            == '-' || persona_file(a)[i] == '.',
{
    reveal_strlit(".md");
    reveal_strlit("dm-");
    let n = scope_name(a);
    if persona_file(a) == persona_file(b) {
        assert(n =~= persona_file(a).take(persona_file(a).len() - 3));
        assert(scope_name(b) =~= persona_file(b).take(persona_file(b).len() - 3));
        scope_names_distinct(a, b);
    }
    match a {
        Scope::Guild(g) => {
            text::lemma_decimal_digits(g as nat);
            if i < n.len() {
                assert(is_digit(decimal(g as nat)[i]));
            }
        },
        Scope::Dm(c) => {
            text::lemma_decimal_digits(c as nat);
            if 3 <= i < n.len() {
                assert(is_digit(decimal(c as nat)[i - 3]));
            }
        },
    }
}

/// A scope behaves as it was set to; one that was not set watches all channels,
/// answers everyone and has no idle timer.
pub proof fn behaviors_are_per_scope(m: Map<Scope, BehaviorView>, scope: Scope)
    ensures
        m.contains_key(scope) ==> behavior_of(m, scope) == m[scope],
        !m.contains_key(scope) ==> {
            let b = behavior_of(m, scope);
            &&& b.watched_channels.len() == 0
            &&& b.respond_to == RespondTo::All
            &&& b.idle_wake_minutes == 0
        },
{
}

/// A persona that was written is read as it is, whatever it holds; only one that
/// was not is the first one.
pub proof fn written_persona_is_read(text: Seq<char>, scope: Scope, model: Seq<char>)
    ensures
        persona_text(Some(text), model) == text,
        persona_text(None, model) == PERSONA_HEAD@ + model + PERSONA_TAIL@,
        persona_file(scope) == scope_name(scope) + ".md"@,
{
}

} // verus!
