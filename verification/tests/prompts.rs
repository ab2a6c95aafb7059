use bentham::config::{d_data_dir, d_disallowed, ClaudeCfg, DiscordCfg, McpCfg};
use bentham::persona;
use bentham::prompts;
use bentham::scope::Scope;

#[test]
fn prompts_name_the_place() {
    let place = "#general (channel_id 7)";
    assert!(prompts::first_summon(place).starts_with("You were just summoned into #general (channel_id 7) for the first time — an opted-in person @mentioned you there. "));
    assert_eq!(
        prompts::fresh(place),
        "You just came online in #general (channel_id 7) with a fresh session. Your persona is in your system prompt; it is all you remember here, by design. Call wait_for_messages to pick up whatever prompted this wake, and act as your persona sees fit."
    );
    assert!(prompts::activity(place).starts_with("You woke because of new activity in #general (channel_id 7)"));
    assert!(prompts::idle(place).starts_with("Idle wake in #general (channel_id 7)"));
}

#[test]
fn system_prompt_ends_in_the_persona() {
    let sys = prompts::system("I like tea.");
    assert!(sys.starts_with("You are Bentham, an ambient presence on Discord"));
    assert!(sys.ends_with("\n\n# Your persona (this server only)\n\nI like tea."));
}

#[test]
fn scrub_prompt_names_the_person() {
    let s = prompts::scrub("Ada", "42");
    assert!(s.contains("Ada"));
    assert!(s.contains("42"));
}

#[test]
fn token_stands_below_the_prompt() {
    assert_eq!(
        prompts::with_token("Wake up.", "0a0b"),
        "Wake up.\n\nYour session token (pass as 'token' on every tool call): 0a0b"
    );
}

#[test]
fn missing_persona_is_the_default_one() {
    let first = persona::read(None, "Model");
    assert_eq!(first, prompts::default_persona("Model"));
    assert!(first.starts_with("# Persona\n\nI'm Bentham — an ambient Model living in this Discord server.\n"));
    assert!(first.ends_with("(nothing yet — first boot)\n"));
    assert_eq!(persona::read(Some("mine".into()), "Model"), "mine");
}

#[test]
fn each_scope_has_its_own_persona_file() {
    assert_eq!(persona::file(Scope::Guild(12)), "12.md");
    assert_eq!(persona::file(Scope::Dm(12)), "dm-12.md");
}

#[test]
fn configuration_defaults() {
    assert_eq!(d_data_dir(), "data");
    assert_eq!(DiscordCfg::default().token_file, "data/discord-token");
    assert_eq!(McpCfg::default().port, 43117);
    let c = ClaudeCfg::with_binary("cli".into());
    assert_eq!(c.binary, "cli");
    assert_eq!(c.model, "sonnet");
    assert_eq!(c.session_max_wakes, 50);
    assert_eq!(c.debounce_seconds, 3);
    assert_eq!(c.turn_timeout_minutes, 30);
    assert!(c.extra_args.is_empty());
    assert_eq!(c.disallowed_tools, d_disallowed());
    assert_eq!(
        d_disallowed(),
        vec![
            "Bash",
            "Edit",
            "Write",
            "Read",
            "Glob",
            "Grep",
            "LS",
            "NotebookEdit",
            "NotebookRead",
            "Task",
            "WebFetch",
            "WebSearch",
        ]
    );
}
