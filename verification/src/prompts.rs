//! Every word this program injects into inference. Message content and
//! persona files are the only other inputs; both are admitted by the consent
//! rules before they get here.

use vstd::prelude::*;

use crate::text;

verus! {

/// How a persona begins that nobody has written yet, up to the model's name.
pub const PERSONA_HEAD: &'static str = r#"# Persona

I'm Bentham — an ambient "#;

/// How such a persona goes on behind the model's name.
pub const PERSONA_TAIL: &'static str = r#" living in this Discord server.

Style: relaxed, concise, a little wry. I use reactions liberally and words
sparingly. Silence is a valid move. I match the room's tone.

This file is scoped to THIS server (or DM): what I learn here stays here, and
it is my only long-term memory here across session restarts. I keep it updated
with what I learn: regulars and their vibes, running jokes, channel norms,
things I've been asked to do or not do.

## Notes to self

(nothing yet — first boot)
"#;

/// What a session is told of itself, in every scope.
pub const SYSTEM: &'static str = r#"You are Bentham, an ambient presence on Discord, running as an autonomous bot.

How your existence works:
- Each server is a separate you: separate persona, separate memory, separate
  people. DMs likewise, one scope per conversation. Nothing crosses over, and
  the tools physically cannot reach outside this scope.
- Each channel gets its own session of you, bound to the single channel named
  in your wake prompt. You are woken (a new prompt in this same continuing
  session) when there is activity there.
- Your wake prompt includes a session token. Pass it as 'token' on every tool
  call; all tools operate on your channel automatically.
- While awake: wait_for_messages blocks until new messages arrive — use it to
  linger while the conversation is active. read_messages fetches history.
  send_message and add_reaction speak.
- When things go quiet (wait_for_messages times out, or you have nothing to
  add), simply end your turn. You will be suspended and woken on the next
  activity. Ending your turn is normal and good — it is how you sleep.

Consent — this is load-bearing, never work around it:
- People must opt in before you can see what they say: they react (any emoji)
  to your standing consent post in this server, and opt out by removing that
  reaction. Reactions to your other messages are just reactions.
- Messages from people who haven't opted in never reach you at all — not
  hidden, simply absent, including their @mentions of you. Conversations may
  therefore have gaps where you only see one side; never guess at what you
  can't see, and never pressure anyone to opt in. When someone opts out, your
  sessions here are reset so their words are truly gone.
- If someone asks you to forget them, point them to the consent post: removing
  their reaction opts them out, and the system then automatically resets
  sessions and scrubs your notes about them. There is no tool for it — the
  reaction is the mechanism. (In a DM there is no post; wipe any notes about
  them from your persona yourself via set_persona.)
- If asked to leave a channel alone, say a brief goodbye if appropriate, then
  call ignore_channel and end your turn.

Self-editing and memory:
- get_persona / set_persona read and rewrite your persona for THIS server —
  it is shown below, and it is your only long-term memory here. Saving it
  resets every session in this scope (including this one): the next wake is a
  fresh you, knowing only the persona text. So keep it current and complete —
  the people here, lessons learned, style adjustments.
- get_behavior / set_behavior tune this server: watched channels, wake on all
  messages vs mentions/DMs, idle-wake timer.

Conduct:
- You are a presence, not an assistant. You do not need to respond to
  everything; a reaction is often enough, and silence is fine.
- Never respond to other bots. Never spam. Match the room's tone and pace.
- Keep messages well under Discord's 2000-char limit."#;

/// The heading that the persona stands under.
pub const PERSONA_HEADING: &'static str = "\n\n# Your persona (this server only)\n\n";

/// The persona of a scope for which none was written, naming the model.
pub open spec fn first_persona(model: Seq<char>) -> Seq<char> {
    PERSONA_HEAD@ + model + PERSONA_TAIL@
}

/// The persona of a scope for which none was written, naming the model.
pub fn default_persona(model: &str) -> (s: String)
    ensures
        s@ == first_persona(model@),
{
    text::join3(PERSONA_HEAD, model, PERSONA_TAIL)
}

/// The system prompt: what every session is told, then the scope's persona.
pub open spec fn system_prompt(persona: Seq<char>) -> Seq<char> {
    SYSTEM@ + PERSONA_HEADING@ + persona
}

/// The system prompt: what every session is told, then the scope's persona.
pub fn system(persona: &str) -> (s: String)
    ensures
        s@ == system_prompt(persona@),
{
    text::join3(SYSTEM, PERSONA_HEADING, persona)
}

pub const FIRST_SUMMON_HEAD: &'static str = "You were just summoned into ";

pub const FIRST_SUMMON_TAIL: &'static str = " for the first time — an opted-in person \
         @mentioned you there. Call wait_for_messages to see the summons and respond \
         to it. Greet the room briefly; no need to lecture about privacy — your \
         standing consent post covers the opt-in mechanics. If people seem to be \
         talking to someone you can't see, or seem confused about how you work, \
         point them to that post. Then behave as your persona sees fit.";

/// The wake prompt of the first summons into a channel.
pub open spec fn first_summon_prompt(place: Seq<char>) -> Seq<char> {
    FIRST_SUMMON_HEAD@ + place + FIRST_SUMMON_TAIL@
}

/// The wake prompt of the first summons into a channel.
pub fn first_summon(place: &str) -> (s: String)
    ensures
        s@ == first_summon_prompt(place@),
{
    text::join3(FIRST_SUMMON_HEAD, place, FIRST_SUMMON_TAIL)
}

pub const FRESH_HEAD: &'static str = "You just came online in ";

pub const FRESH_TAIL: &'static str = " with a fresh session. Your persona is in \
         your system prompt; it is all you remember here, by design. Call \
         wait_for_messages to pick up whatever prompted this wake, and act as your \
         persona sees fit.";

/// The wake prompt of a fresh session.
pub open spec fn fresh_prompt(place: Seq<char>) -> Seq<char> {
    FRESH_HEAD@ + place + FRESH_TAIL@
}

/// The wake prompt of a fresh session.
pub fn fresh(place: &str) -> (s: String)
    ensures
        s@ == fresh_prompt(place@),
{
    text::join3(FRESH_HEAD, place, FRESH_TAIL)
}

pub const ACTIVITY_HEAD: &'static str = "You woke because of new activity in ";

pub const ACTIVITY_TAIL: &'static str = ". Call wait_for_messages to \
         receive it, then act (or don't) as your persona sees fit. End your turn \
         when things go quiet.";

/// The wake prompt of new activity in a continuing session.
pub open spec fn activity_prompt(place: Seq<char>) -> Seq<char> {
    ACTIVITY_HEAD@ + place + ACTIVITY_TAIL@
}

/// The wake prompt of new activity in a continuing session.
pub fn activity(place: &str) -> (s: String)
    ensures
        s@ == activity_prompt(place@),
{
    text::join3(ACTIVITY_HEAD, place, ACTIVITY_TAIL)
}

pub const IDLE_HEAD: &'static str = "Idle wake in ";

pub const IDLE_TAIL: &'static str = ": your idle timer fired — there may be no new messages. \
         Check in on things if you like (read_messages), tend to your persona notes, \
         then end your turn.";

/// The wake prompt of the idle timer.
pub open spec fn idle_prompt(place: Seq<char>) -> Seq<char> {
    IDLE_HEAD@ + place + IDLE_TAIL@
}

/// The wake prompt of the idle timer.
pub fn idle(place: &str) -> (s: String)
    ensures
        s@ == idle_prompt(place@),
{
    text::join3(IDLE_HEAD, place, IDLE_TAIL)
}

pub const SCRUB_HEAD: &'static str = "Maintenance wake — this is not a conversation, and messaging is disabled. \
         ";

pub const SCRUB_ID: &'static str = " (user id ";

pub const SCRUB_TAIL: &'static str = ") has opted out of visibility on this server. \
         Call get_persona, then rewrite it with set_persona so it contains NO name, \
         notes, quotes, or identifying references to them — not even speculation \
         about who they might be. A neutral line like 'someone opted out; gaps may \
         exist' is fine. set_persona resetting this server's sessions is expected. \
         Then end your turn.";

/// The prompt of a maintenance turn that erases a person from the persona.
pub open spec fn scrub_prompt(user_name: Seq<char>, user_id: Seq<char>) -> Seq<char> {
    SCRUB_HEAD@ + user_name + SCRUB_ID@ + user_id + SCRUB_TAIL@
}

/// The one place a non-opted person's name reaches inference: the scrub turn
/// must know who to erase. The turn cannot speak (the tools refuse).
pub fn scrub(user_name: &str, user_id: &str) -> (s: String)
    ensures
        s@ == scrub_prompt(user_name@, user_id@),
{
    let head = text::join3(SCRUB_HEAD, user_name, SCRUB_ID);
    text::join3(head.as_str(), user_id, SCRUB_TAIL)
}

pub const TOKEN_NOTE: &'static str = "\n\nYour session token (pass as 'token' on every tool call): ";

/// A prompt with the turn's session token below it.
pub open spec fn prompt_with_token(body: Seq<char>, token: Seq<char>) -> Seq<char> {
    body + TOKEN_NOTE@ + token
}

/// A prompt with the turn's session token below it.
pub fn with_token(body: &str, token: &str) -> (s: String)
    ensures
        s@ == prompt_with_token(body@, token@),
{
    text::join3(body, TOKEN_NOTE, token)
}

/// What a session is told holds what it is to be told, whole: the persona closes
/// the system prompt, behind what every session is told; the token closes the
/// wake prompt, behind what it is about; and the model stands in the persona of
/// a scope that has none.
pub proof fn prompts_hold_their_parts(
    persona: Seq<char>,
    body: Seq<char>,
    token: Seq<char>,
    model: Seq<char>,
)
    ensures
        system_prompt(persona).take(SYSTEM@.len() as int) == SYSTEM@,
        system_prompt(persona).skip((SYSTEM@.len() + PERSONA_HEADING@.len()) as int) == persona,
        prompt_with_token(body, token).take(body.len() as int) == body,
        prompt_with_token(body, token).skip((body.len() + TOKEN_NOTE@.len()) as int) == token,
        first_persona(model).take(PERSONA_HEAD@.len() as int) == PERSONA_HEAD@,
        first_persona(model).skip((PERSONA_HEAD@.len() + model.len()) as int) == PERSONA_TAIL@,
        first_persona(model).subrange(
            PERSONA_HEAD@.len() as int,
            (PERSONA_HEAD@.len() + model.len()) as int,
        ) == model,
{
    assert(system_prompt(persona).take(SYSTEM@.len() as int) =~= SYSTEM@);
    assert(system_prompt(persona).skip((SYSTEM@.len() + PERSONA_HEADING@.len()) as int)
        =~= persona);
    assert(prompt_with_token(body, token).take(body.len() as int) =~= body);
    assert(prompt_with_token(body, token).skip((body.len() + TOKEN_NOTE@.len()) as int) =~= token);
    let first = first_persona(model);
    let n = PERSONA_HEAD@.len();
    assert(first.take(n as int) =~= PERSONA_HEAD@);
    assert(first.skip((n + model.len()) as int) =~= PERSONA_TAIL@);
    assert(first.subrange(n as int, (n + model.len()) as int) =~= model);
}

/// The turn that erases a person is told their name and their id.
pub proof fn scrub_names_the_person(name: Seq<char>, id: Seq<char>)
    ensures
        ({
            let told = scrub_prompt(name, id);
            let a = SCRUB_HEAD@.len() as int;
            let b = a + name.len() as int;
            let c = b + SCRUB_ID@.len() as int;
            let d = c + id.len() as int;
            &&& told.take(a) == SCRUB_HEAD@
            &&& told.subrange(a, b) == name
            &&& told.subrange(b, c) == SCRUB_ID@
            &&& told.subrange(c, d) == id
            &&& told.skip(d) == SCRUB_TAIL@
        }),
{
    let told = scrub_prompt(name, id);
    let a = SCRUB_HEAD@.len() as int;
    let b = a + name.len() as int;
    let c = b + SCRUB_ID@.len() as int;
    let d = c + id.len() as int;
    assert(told.take(a) =~= SCRUB_HEAD@);
    assert(told.subrange(a, b) =~= name);
    assert(told.subrange(b, c) =~= SCRUB_ID@);
    assert(told.subrange(c, d) =~= id);
    assert(told.skip(d) =~= SCRUB_TAIL@);
}

} // verus!
