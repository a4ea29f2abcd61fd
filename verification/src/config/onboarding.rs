//! First-run setup: from the answers of the wizard to a configuration file.
use crate::config::environment::EnvVars;
use crate::config::file;
use crate::config::Config;
use crate::llm::routing::RoutingConfig;
use crate::paths;
use crate::paths::path_join;
use crate::text;
use crate::text::{join_texts, lower_text, replace_char_text, split_text, trim_text};
use vstd::prelude::*;

verus! {

/// A provider that the wizard offers.
pub struct ProviderChoice {
    /// How the wizard names the provider.
    pub label: String,
    /// How the wizard asks for the key.
    pub key_prompt: String,
    /// The key's name in the configuration file.
    pub toml_key: String,
    pub id: String,
}

/// The providers in the order of the wizard: label, key prompt, key name, id.
pub open spec fn provider_table() -> Seq<(Seq<char>, Seq<char>, Seq<char>, Seq<char>)> {
    seq![
        ("Anthropic"@, "Anthropic API key"@, "anthropic_key"@, "anthropic"@),
        ("OpenRouter"@, "OpenRouter API key"@, "openrouter_key"@, "openrouter"@),
        ("OpenAI"@, "OpenAI API key"@, "openai_key"@, "openai"@),
        ("Z.ai (GLM)"@, "Z.ai (GLM) API key"@, "zhipu_key"@, "zhipu"@),
        ("Groq"@, "Groq API key"@, "groq_key"@, "groq"@),
        ("Together AI"@, "Together AI API key"@, "together_key"@, "together"@),
        ("Fireworks AI"@, "Fireworks AI API key"@, "fireworks_key"@, "fireworks"@),
        ("DeepSeek"@, "DeepSeek API key"@, "deepseek_key"@, "deepseek"@),
        ("xAI (Grok)"@, "xAI API key"@, "xai_key"@, "xai"@),
        ("Mistral AI"@, "Mistral AI API key"@, "mistral_key"@, "mistral"@),
        ("OpenCode Zen"@, "OpenCode Zen API key"@, "opencode_zen_key"@, "opencode-zen"@),
    ]
}

fn choice(label: &str, key_prompt: &str, toml_key: &str, id: &str) -> (r: ProviderChoice)
    ensures
        r.label@ == label@,
        r.key_prompt@ == key_prompt@,
        r.toml_key@ == toml_key@,
        r.id@ == id@,
{
    ProviderChoice {
        label: label.to_owned(),
        key_prompt: key_prompt.to_owned(),
        toml_key: toml_key.to_owned(),
        id: id.to_owned(),
    }
}

/// The provider at a position of the wizard's list.
pub fn provider_choice(index: usize) -> (r: Option<ProviderChoice>)
    ensures
        match r {
            Some(c) => index < provider_table().len() && provider_table()[index as int] == (
                c.label@,
                c.key_prompt@,
                c.toml_key@,
                c.id@,
            ),
            None => index >= provider_table().len(),
        },
{
    if index == 0 {
        Some(choice("Anthropic", "Anthropic API key", "anthropic_key", "anthropic"))
    } else if index == 1 {
        Some(choice("OpenRouter", "OpenRouter API key", "openrouter_key", "openrouter"))
    } else if index == 2 {
        Some(choice("OpenAI", "OpenAI API key", "openai_key", "openai"))
    } else if index == 3 {
        Some(choice("Z.ai (GLM)", "Z.ai (GLM) API key", "zhipu_key", "zhipu"))
    } else if index == 4 {
        Some(choice("Groq", "Groq API key", "groq_key", "groq"))
    } else if index == 5 {
        Some(choice("Together AI", "Together AI API key", "together_key", "together"))
    } else if index == 6 {
        Some(choice("Fireworks AI", "Fireworks AI API key", "fireworks_key", "fireworks"))
    } else if index == 7 {
        Some(choice("DeepSeek", "DeepSeek API key", "deepseek_key", "deepseek"))
    } else if index == 8 {
        Some(choice("xAI (Grok)", "xAI API key", "xai_key", "xai"))
    } else if index == 9 {
        Some(choice("Mistral AI", "Mistral AI API key", "mistral_key", "mistral"))
    } else if index == 10 {
        Some(choice("OpenCode Zen", "OpenCode Zen API key", "opencode_zen_key", "opencode-zen"))
    } else {
        None
    }
}

/// What the user entered about Discord, as typed.
pub struct DiscordAnswers {
    pub token: String,
    pub guild_id: String,
    pub channel_ids: String,
    pub dm_user_ids: String,
}

/// What the user entered, as typed.
pub struct Answers {
    pub api_key: String,
    pub agent_name: String,
    pub discord: Option<DiscordAnswers>,
}

/// The Discord setup that the answers stand for.
pub struct DiscordSetup {
    pub token: String,
    pub guild_id: Option<String>,
    pub channel_ids: Vec<String>,
    pub dm_user_ids: Vec<String>,
}

/// The entries of a comma-separated list that are not blank, trimmed.
pub open spec fn entries(parts: Seq<Seq<char>>) -> Seq<Seq<char>>
    decreases parts.len(),
{
    if parts.len() == 0 {
        Seq::empty()
    } else {
        let before = entries(parts.drop_last());
        let t = text::trim(parts.last());
        if t.len() > 0 {
            before.push(t)
        } else {
            before
        }
    }
}

/// Reads a comma-separated list.
pub fn parse_list(s: &str) -> (r: Vec<String>)
    ensures
        text::texts(r@) == entries(text::split(s@, ',')),
{
    let parts = split_text(s, ',');
    let mut out: Vec<String> = Vec::new();
    let mut i: usize = 0;
    let ghost all = text::texts(parts@);
    proof {
        assert(all.take(0) =~= Seq::<Seq<char>>::empty());
        assert(text::texts(out@) =~= Seq::<Seq<char>>::empty());
    }
    while i < parts.len()
        invariant
            i <= parts@.len(),
            all == text::texts(parts@),
            text::texts(out@) == entries(all.take(i as int)),
        decreases parts@.len() - i,
    {
        let ghost before = text::texts(out@);
        proof {
            assert(all.take(i + 1).drop_last() =~= all.take(i as int));
            assert(all.take(i + 1).last() == parts@[i as int]@);
        }
        let t = trim_text(parts[i].as_str());
        if !t.as_str().is_empty() {
            out.push(t);
            assert(text::texts(out@) =~= before.push(t@));
        }
        i = i + 1;
    }
    assert(all.take(i as int) =~= all);
    out
}

/// `r` is the Discord setup that the answers stand for: none without a token.
pub open spec fn discord_setup(a: Option<DiscordAnswers>, r: Option<DiscordSetup>) -> bool {
    match a {
        Some(d) => match r {
            Some(s) => {
                &&& text::trim(d.token@).len() > 0
                &&& s.token@ == text::trim(d.token@)
                &&& (match s.guild_id {
                    Some(g) => g@ == text::trim(d.guild_id@) && g@.len() > 0,
                    None => text::trim(d.guild_id@).len() == 0,
                })
                &&& text::texts(s.channel_ids@) == entries(text::split(d.channel_ids@, ','))
                &&& text::texts(s.dm_user_ids@) == entries(text::split(d.dm_user_ids@, ','))
            },
            None => text::trim(d.token@).len() == 0,
        },
        None => r is None,
    }
}

/// Reads the answers about Discord.
pub fn parse_discord(a: &Option<DiscordAnswers>) -> (r: Option<DiscordSetup>)
    ensures
        discord_setup(*a, r),
{
    match a {
        Some(d) => {
            let token = trim_text(d.token.as_str());
            if token.as_str().is_empty() {
                return None;
            }
            let guild = trim_text(d.guild_id.as_str());
            let guild_id = if guild.as_str().is_empty() {
                None
            } else {
                Some(guild)
            };
            Some(
                DiscordSetup {
                    token,
                    guild_id,
                    channel_ids: parse_list(d.channel_ids.as_str()),
                    dm_user_ids: parse_list(d.dm_user_ids.as_str()),
                },
            )
        },
        None => None,
    }
}

/// The id of an agent: its name without the surrounding white space, in lower
/// case, with dashes for blanks.
pub open spec fn agent_id_of(name: Seq<char>) -> Seq<char> {
    text::replace_char(text::lower(text::trim(name)), ' ', '-')
}

/// A line of the file that sets a key to a quoted value.
pub open spec fn setting(key: Seq<char>, value: Seq<char>) -> Seq<char> {
    key + " = \""@ + value + "\"\n"@
}

fn push_setting(out: &mut String, key: &str, value: &str)
    ensures
        final(out)@ == old(out)@ + setting(key@, value@),
{
    out.append(key);
    out.append(" = \"");
    out.append(value);
    out.append("\"\n");
    assert(out@ =~= old(out)@ + setting(key@, value@));
}

/// Texts in quotes.
pub open spec fn quoted(ids: Seq<Seq<char>>) -> Seq<Seq<char>> {
    Seq::new(ids.len(), |i: int| "\""@ + ids[i] + "\""@)
}

/// A line of the file that sets a key to a list, where the list is not empty.
pub open spec fn list_setting(key: Seq<char>, ids: Seq<Seq<char>>) -> Seq<char> {
    if ids.len() == 0 {
        Seq::empty()
    } else {
        key + " = ["@ + text::join(quoted(ids), ", "@) + "]\n"@
    }
}

fn push_list(out: &mut String, key: &str, ids: &Vec<String>)
    ensures
        final(out)@ == old(out)@ + list_setting(key@, text::texts(ids@)),
{
    if ids.len() == 0 {
        assert(out@ =~= old(out)@ + Seq::<char>::empty());
        return;
    }
    let mut q: Vec<String> = Vec::new();
    let mut i: usize = 0;
    let ghost all = quoted(text::texts(ids@));
    assert(text::texts(q@) =~= all.take(0));
    while i < ids.len()
        invariant
            i <= ids@.len(),
            all == quoted(text::texts(ids@)),
            text::texts(q@) == all.take(i as int),
        decreases ids@.len() - i,
    {
        let ghost before = text::texts(q@);
        let item = text::cat3("\"", ids[i].as_str(), "\"");
        q.push(item);
        proof {
            assert(text::texts(q@) =~= before.push(item@));
            assert(all.take(i + 1) =~= all.take(i as int).push(all[i as int]));
        }
        i = i + 1;
    }
    assert(all.take(i as int) =~= all);
    let list = join_texts(&q, ", ");
    out.append(key);
    out.append(" = [");
    out.append(list.as_str());
    out.append("]\n");
    assert(out@ =~= old(out)@ + list_setting(key@, text::texts(ids@)));
}

/// The models of the file.
pub open spec fn routing_section(r: RoutingConfig) -> Seq<char> {
    "[defaults.routing]\n"@ + setting("channel"@, r.channel@) + setting("branch"@, r.branch@)
        + setting("worker"@, r.worker@) + setting("compactor"@, r.compactor@) + setting(
        "cortex"@,
        r.cortex@,
    ) + "\n"@
}

/// The Discord part of the file: the platform and a binding to the agent.
pub open spec fn discord_section(d: Option<DiscordSetup>, agent_id: Seq<char>) -> Seq<char> {
    match d {
        Some(s) => "\n[messaging.discord]\n"@ + "enabled = true\n"@ + setting("token"@, s.token@)
            + "\n[[bindings]]\n"@ + setting("agent_id"@, agent_id) + setting(
            "channel"@,
            "discord"@,
        ) + (match s.guild_id {
            Some(g) => setting("guild_id"@, g@),
            None => Seq::empty(),
        }) + list_setting("channel_ids"@, text::texts(s.channel_ids@)) + list_setting(
            "dm_allowed_users"@,
            text::texts(s.dm_user_ids@),
        ),
        None => Seq::empty(),
    }
}

/// The configuration file that the setup writes.
pub open spec fn config_text(
    toml_key: Seq<char>,
    api_key: Seq<char>,
    routing: RoutingConfig,
    agent_id: Seq<char>,
    discord: Option<DiscordSetup>,
) -> Seq<char> {
    "[llm]\n"@ + setting(toml_key, api_key) + "\n"@ + routing_section(routing) + "[[agents]]\n"@
        + setting("id"@, agent_id) + "default = true\n"@ + discord_section(discord, agent_id)
}

/// Why a setup writes no file.
#[derive(Clone, Copy, Debug, PartialEq, Eq, Structural)]
pub enum OnboardingError {
    /// The API key is blank.
    EmptyApiKey,
}

/// What a setup writes.
pub struct Onboarding {
    pub agent_id: String,
    pub config: String,
}

fn write_config(
    toml_key: &str,
    api_key: &str,
    routing: &RoutingConfig,
    agent_id: &str,
    discord: &Option<DiscordSetup>,
) -> (r: String)
    ensures
        r@ == config_text(toml_key@, api_key@, *routing, agent_id@, *discord),
{
    let mut out = "[llm]\n".to_owned();
    push_setting(&mut out, toml_key, api_key);
    out.append("\n");
    let ghost head = out@;
    out.append("[defaults.routing]\n");
    push_setting(&mut out, "channel", routing.channel.as_str());
    push_setting(&mut out, "branch", routing.branch.as_str());
    push_setting(&mut out, "worker", routing.worker.as_str());
    push_setting(&mut out, "compactor", routing.compactor.as_str());
    push_setting(&mut out, "cortex", routing.cortex.as_str());
    out.append("\n");
    assert(out@ =~= head + routing_section(*routing));
    out.append("[[agents]]\n");
    push_setting(&mut out, "id", agent_id);
    out.append("default = true\n");
    let ghost body = out@;
    match discord {
        Some(s) => {
            out.append("\n[messaging.discord]\n");
            out.append("enabled = true\n");
            push_setting(&mut out, "token", s.token.as_str());
            out.append("\n[[bindings]]\n");
            push_setting(&mut out, "agent_id", agent_id);
            push_setting(&mut out, "channel", "discord");
            let ghost before = out@;
            match &s.guild_id {
                Some(g) => {
                    push_setting(&mut out, "guild_id", g.as_str());
                },
                None => {
                    assert(out@ =~= before + Seq::<char>::empty());
                },
            }
            push_list(&mut out, "channel_ids", &s.channel_ids);
            push_list(&mut out, "dm_allowed_users", &s.dm_user_ids);
            assert(out@ =~= body + discord_section(*discord, agent_id@));
        },
        None => {
            assert(out@ =~= body + discord_section(*discord, agent_id@));
        },
    }
    out
}

/// What the answers of the wizard stand for: an API key that is not blank, and one
/// default agent.
pub open spec fn is_setup(
    choice: ProviderChoice,
    answers: Answers,
    routing: RoutingConfig,
    o: Onboarding,
) -> bool {
    &&& text::trim(answers.api_key@).len() > 0
    &&& o.agent_id@ == agent_id_of(answers.agent_name@)
    &&& exists|d: Option<DiscordSetup>|
        #[trigger] discord_setup(answers.discord, d) && o.config@ == config_text(
            choice.toml_key@,
            text::trim(answers.api_key@),
            routing,
            agent_id_of(answers.agent_name@),
            d,
        )
}

/// Turns the answers of the wizard into a configuration file. `routing` holds
/// the models of the chosen provider.
pub fn onboard(choice: &ProviderChoice, answers: &Answers, routing: &RoutingConfig) -> (r: Result<
    Onboarding,
    OnboardingError,
>)
    ensures
        match r {
            Ok(o) => is_setup(*choice, *answers, *routing, o),
            Err(e) => e == OnboardingError::EmptyApiKey && text::trim(answers.api_key@).len() == 0,
        },
{
    let api_key = trim_text(answers.api_key.as_str());
    if api_key.as_str().is_empty() {
        return Err(OnboardingError::EmptyApiKey);
    }
    let name = trim_text(answers.agent_name.as_str());
    let lower = lower_text(name.as_str());
    let agent_id = replace_char_text(lower.as_str(), ' ', '-');
    let discord = parse_discord(&answers.discord);
    let config = write_config(
        choice.toml_key.as_str(),
        api_key.as_str(),
        routing,
        agent_id.as_str(),
        &discord,
    );
    Ok(Onboarding { agent_id, config })
}

/// How a setup is made.
pub enum SetupMethod {
    /// In the terminal, with these answers.
    Cli { choice: ProviderChoice, answers: Answers },
    /// In the browser, where no file is written.
    Browser,
}

/// A configuration file to be written.
pub struct SetupFile {
    pub path: String,
    pub setup: Onboarding,
}

/// Run the first setup: from what was chosen and answered to the configuration file
/// to be written, in the default instance directory. `routing` holds the models of
/// the chosen provider. There is none to be written where the setup is made in the
/// browser.
pub fn run_onboarding(
    method: &SetupMethod,
    routing: &RoutingConfig,
    env: &EnvVars,
    home: Option<&str>,
) -> (r: Result<Option<SetupFile>, OnboardingError>)
    ensures
        match method {
            SetupMethod::Browser => r == Ok::<Option<SetupFile>, OnboardingError>(None),
            SetupMethod::Cli { choice, answers } => match r {
                Ok(Some(f)) => f.path@ == paths::joined(
                    file::instance_dir_of(*env, home),
                    "config.toml"@,
                ) && is_setup(*choice, *answers, *routing, f.setup),
                Ok(None) => false,
                Err(e) => e == OnboardingError::EmptyApiKey && text::trim(answers.api_key@).len()
                    == 0,
            },
        },
{
    match method {
        SetupMethod::Browser => Ok(None),
        SetupMethod::Cli { choice, answers } => match onboard(choice, answers, routing) {
            Ok(setup) => {
                let dir = Config::default_instance_dir(env, home);
                Ok(Some(SetupFile { path: path_join(dir.as_str(), "config.toml"), setup }))
            },
            Err(e) => Err(e),
        },
    }
}

/// No id of an agent that the setup makes holds a blank.
pub proof fn law_agent_id_has_no_blank(name: Seq<char>, i: int)
    requires
        0 <= i < agent_id_of(name).len(),
    ensures
        agent_id_of(name)[i] != ' ',
{
}

/// One more entry of a comma-separated list is taken without the blanks around it, last; a
/// blank one is left out.
pub proof fn law_entries_are_read_in_order(
    parts: Seq<Seq<char>>,
    a: Seq<char>,
    s: Seq<char>,
    b: Seq<char>,
)
    requires
        forall|i: int| 0 <= i < a.len() ==> text::is_space(#[trigger] a[i]),
        forall|i: int| 0 <= i < b.len() ==> text::is_space(#[trigger] b[i]),
        s.len() > 0 ==> !text::is_space(s[0]) && !text::is_space(s.last()),
    ensures
        s.len() > 0 ==> entries(parts.push(a + s + b)) == entries(parts).push(s),
        s.len() == 0 ==> entries(parts.push(a + s + b)) == entries(parts),
        entries(Seq::empty()).len() == 0,
{
    text::law_trimmed_text_is_what_stands_between(a, s, b);
    assert(parts.push(a + s + b).drop_last() == parts);
}

/// The Discord setup holds what was typed, without the blanks around it. Without a token
/// there is none, and without a guild it is for all guilds.
pub proof fn law_discord_answers_are_read(
    d: DiscordAnswers,
    r: Option<DiscordSetup>,
    token: Seq<char>,
    guild: Seq<char>,
)
    requires
        discord_setup(Some(d), r),
        token.len() > 0 ==> !text::is_space(token[0]) && !text::is_space(token.last()),
        guild.len() > 0 ==> !text::is_space(guild[0]) && !text::is_space(guild.last()),
        d.token@ == " "@ + token + "\n"@,
        d.guild_id@ == " "@ + guild + "\n"@,
    ensures
        r is Some <==> token.len() > 0,
        r matches Some(s) ==> s.token@ == token,
        r matches Some(s) ==> (s.guild_id is Some <==> guild.len() > 0),
        r matches Some(s) ==> (s.guild_id matches Some(g) ==> g@ == guild),
        discord_setup(None, None) && !discord_setup(None, Some(r->0)),
{
    reveal_strlit(" ");
    reveal_strlit("\n");
    text::law_trimmed_text_is_what_stands_between(" "@, token, "\n"@);
    text::law_trimmed_text_is_what_stands_between(" "@, guild, "\n"@);
}

/// The id of an agent is its name in lower case with dashes for blanks, character by
/// character, and without the white space around it.
pub proof fn law_agent_id_follows_the_name(name: Seq<char>, i: int)
    requires
        0 <= i < name.len(),
        forall|k: int| 0 <= k < name.len() ==> (#[trigger] name[k]) as u32 <= 0x7f,
        !text::is_space(name[0]) && !text::is_space(name.last()),
    ensures
        agent_id_of(name).len() == name.len(),
        agent_id_of(" "@ + name + " "@) == agent_id_of(name),
        name[i] == ' ' ==> agent_id_of(name)[i] == '-',
        'A' <= name[i] <= 'Z' ==> agent_id_of(name)[i] as u32 == name[i] as u32 + 32,
        name[i] != ' ' && !('A' <= name[i] <= 'Z') ==> agent_id_of(name)[i] == name[i],
{
    reveal_strlit(" ");
    let none = Seq::<char>::empty();
    text::law_trimmed_text_is_what_stands_between(none, name, none);
    assert(none + name + none == name);
    text::law_trimmed_text_is_what_stands_between(" "@, name, " "@);
    text::law_lower_case_of_ascii(name, i);
    text::law_only_that_character_is_replaced(text::lower(name), ' ', '-', i);
}

/// A setting is written as its key, an equals sign and its value in quotes, on a line of
/// its own; a list as its entries in quotes between brackets, with commas, where it has
/// any.
pub proof fn law_settings_are_written(
    key: Seq<char>,
    value: Seq<char>,
    ids: Seq<Seq<char>>,
    id: Seq<char>,
)
    ensures
        setting(key, value) == key + " = \""@ + value + "\"\n"@,
        list_setting(key, Seq::empty()).len() == 0,
        list_setting(key, seq![id]) == key + " = ["@ + ("\""@ + id + "\""@) + "]\n"@,
        ids.len() > 0 ==> text::join(quoted(ids.push(id)), ", "@) == text::join(quoted(ids), ", "@)
            + ", "@ + ("\""@ + id + "\""@),
{
    let q = "\""@ + id + "\""@;
    assert(quoted(seq![id]) == seq![q]);
    assert(quoted(ids.push(id)) == quoted(ids).push(q));
    text::law_texts_are_joined_in_order(quoted(ids), q, ", "@);
    text::law_texts_are_joined_in_order(Seq::empty(), q, ", "@);
}

/// The file names the key of the provider, a model for each process and one default
/// agent. It has nothing on Discord where nothing was set up there; else it enables
/// Discord with its token and binds it to the agent.
pub proof fn law_file_says_what_was_answered(
    toml_key: Seq<char>,
    api_key: Seq<char>,
    routing: RoutingConfig,
    agent_id: Seq<char>,
    d: DiscordSetup,
)
    ensures
        text::has_text(
            config_text(toml_key, api_key, routing, agent_id, None),
            toml_key + " = \""@ + api_key + "\"\n"@,
        ),
        text::has_text(
            config_text(toml_key, api_key, routing, agent_id, None),
            "id = \""@ + agent_id + "\"\ndefault = true\n"@,
        ),
        text::has_text(routing_section(routing), "channel = \""@ + routing.channel@ + "\"\n"@),
        text::has_text(routing_section(routing), "branch = \""@ + routing.branch@ + "\"\n"@),
        text::has_text(routing_section(routing), "worker = \""@ + routing.worker@ + "\"\n"@),
        text::has_text(routing_section(routing), "compactor = \""@ + routing.compactor@ + "\"\n"@),
        text::has_text(routing_section(routing), "cortex = \""@ + routing.cortex@ + "\"\n"@),
        text::has_text(
            config_text(toml_key, api_key, routing, agent_id, None),
            routing_section(routing),
        ),
        config_text(toml_key, api_key, routing, agent_id, Some(d)) == config_text(
            toml_key,
            api_key,
            routing,
            agent_id,
            None,
        ) + discord_section(Some(d), agent_id),
        text::has_text(
            discord_section(Some(d), agent_id),
            "[messaging.discord]\nenabled = true\ntoken = \""@ + d.token@ + "\"\n"@,
        ),
        text::has_text(
            discord_section(Some(d), agent_id),
            "agent_id = \""@ + agent_id + "\"\nchannel = \"discord\"\n"@,
        ),
        discord_section(None, agent_id).len() == 0,
{
    let none = Seq::<char>::empty();
    let all = config_text(toml_key, api_key, routing, agent_id, None);
    let key = toml_key + " = \""@ + api_key + "\"\n"@;
    let id = "id = \""@ + agent_id + "\"\ndefault = true\n"@;
    let models = routing_section(routing);
    reveal_strlit("id");
    reveal_strlit(" = \"");
    reveal_strlit("\"\n");
    reveal_strlit("id = \"");
    reveal_strlit("default = true\n");
    reveal_strlit("\"\ndefault = true\n");
    assert(setting("id"@, agent_id) + "default = true\n"@ == id);
    let before_models = "[llm]\n"@ + key + "\n"@;
    assert(discord_section(None, agent_id) == none);
    assert(all == before_models + models + "[[agents]]\n"@ + setting("id"@, agent_id)
        + "default = true\n"@ + none);
    lemma_stands_between("[llm]\n"@, key, "\n"@ + models + "[[agents]]\n"@ + id, all);
    lemma_stands_between(before_models + models + "[[agents]]\n"@, id, none, all);
    lemma_stands_between(before_models, models, "[[agents]]\n"@ + id, all);
    lemma_models_are_written(routing);
    lemma_discord_is_written(d, agent_id);
    let with = config_text(toml_key, api_key, routing, agent_id, Some(d));
    assert(with == before_models + models + "[[agents]]\n"@ + setting("id"@, agent_id)
        + "default = true\n"@ + discord_section(Some(d), agent_id));
    assert(with == all + discord_section(Some(d), agent_id));
}

proof fn lemma_stands_between(a: Seq<char>, s: Seq<char>, b: Seq<char>, all: Seq<char>)
    requires
        all =~= a + s + b,
    ensures
        text::has_text(all, s),
{
    assert(all.subrange(a.len() as int, a.len() as int + s.len()) == s);
    assert(text::matches_at(all, s, a.len() as int));
}

proof fn lemma_models_are_written(r: RoutingConfig)
    ensures
        text::has_text(routing_section(r), "channel = \""@ + r.channel@ + "\"\n"@),
        text::has_text(routing_section(r), "branch = \""@ + r.branch@ + "\"\n"@),
        text::has_text(routing_section(r), "worker = \""@ + r.worker@ + "\"\n"@),
        text::has_text(routing_section(r), "compactor = \""@ + r.compactor@ + "\"\n"@),
        text::has_text(routing_section(r), "cortex = \""@ + r.cortex@ + "\"\n"@),
{
    reveal_strlit(" = \"");
    reveal_strlit("channel");
    reveal_strlit("channel = \"");
    reveal_strlit("branch");
    reveal_strlit("branch = \"");
    reveal_strlit("worker");
    reveal_strlit("worker = \"");
    reveal_strlit("compactor");
    reveal_strlit("compactor = \"");
    reveal_strlit("cortex");
    reveal_strlit("cortex = \"");
    let c = "channel = \""@ + r.channel@ + "\"\n"@;
    let b = "branch = \""@ + r.branch@ + "\"\n"@;
    let w = "worker = \""@ + r.worker@ + "\"\n"@;
    let m = "compactor = \""@ + r.compactor@ + "\"\n"@;
    let x = "cortex = \""@ + r.cortex@ + "\"\n"@;
    assert(setting("channel"@, r.channel@) == c);
    assert(setting("branch"@, r.branch@) == b);
    assert(setting("worker"@, r.worker@) == w);
    assert(setting("compactor"@, r.compactor@) == m);
    assert(setting("cortex"@, r.cortex@) == x);
    let h = "[defaults.routing]\n"@;
    let all = routing_section(r);
    assert(all == h + c + b + w + m + x + "\n"@);
    lemma_stands_between(h, c, b + w + m + x + "\n"@, all);
    lemma_stands_between(h + c, b, w + m + x + "\n"@, all);
    lemma_stands_between(h + c + b, w, m + x + "\n"@, all);
    lemma_stands_between(h + c + b + w, m, x + "\n"@, all);
    lemma_stands_between(h + c + b + w + m, x, "\n"@, all);
}

proof fn lemma_discord_is_written(d: DiscordSetup, agent_id: Seq<char>)
    ensures
        text::has_text(
            discord_section(Some(d), agent_id),
            "[messaging.discord]\nenabled = true\ntoken = \""@ + d.token@ + "\"\n"@,
        ),
        text::has_text(
            discord_section(Some(d), agent_id),
            "agent_id = \""@ + agent_id + "\"\nchannel = \"discord\"\n"@,
        ),
{
    reveal_strlit(" = \"");
    reveal_strlit("\"\n");
    reveal_strlit("token");
    reveal_strlit("enabled = true\n");
    reveal_strlit("\n[messaging.discord]\n");
    reveal_strlit("[messaging.discord]\nenabled = true\ntoken = \"");
    reveal_strlit("agent_id");
    reveal_strlit("agent_id = \"");
    reveal_strlit("channel");
    reveal_strlit("discord");
    reveal_strlit("\"\nchannel = \"discord\"\n");
    reveal_strlit("\n");
    let p = "[messaging.discord]\nenabled = true\ntoken = \""@ + d.token@ + "\"\n"@;
    let q = "agent_id = \""@ + agent_id + "\"\nchannel = \"discord\"\n"@;
    assert("\n[messaging.discord]\n"@ + "enabled = true\n"@ + setting("token"@, d.token@) == "\n"@
        + p);
    assert(setting("agent_id"@, agent_id) + setting("channel"@, "discord"@) == q);
    let g = match d.guild_id {
        Some(g) => setting("guild_id"@, g@),
        None => Seq::empty(),
    };
    let l = list_setting("channel_ids"@, text::texts(d.channel_ids@));
    let u = list_setting("dm_allowed_users"@, text::texts(d.dm_user_ids@));
    let all = discord_section(Some(d), agent_id);
    assert(all == "\n"@ + p + "\n[[bindings]]\n"@ + q + g + l + u);
    lemma_stands_between("\n"@, p, "\n[[bindings]]\n"@ + q + g + l + u, all);
    lemma_stands_between("\n"@ + p + "\n[[bindings]]\n"@, q, g + l + u, all);
}

/// A setup is made with a key that is not blank, which the file holds without the blanks
/// around it, under the name of the chosen provider, and with the agent that was named.
pub proof fn law_setup_holds_the_key(
    choice: ProviderChoice,
    answers: Answers,
    routing: RoutingConfig,
    o: Onboarding,
    key: Seq<char>,
)
    requires
        is_setup(choice, answers, routing, o),
        key.len() > 0 ==> !text::is_space(key[0]) && !text::is_space(key.last()),
        answers.api_key@ == " "@ + key + "\n"@,
    ensures
        key.len() > 0,
        o.agent_id@ == agent_id_of(answers.agent_name@),
        text::has_text(o.config@, choice.toml_key@ + " = \""@ + key + "\"\n"@),
        answers.discord is None ==> o.config@ == config_text(
            choice.toml_key@,
            key,
            routing,
            o.agent_id@,
            None,
        ),
{
    reveal_strlit(" ");
    reveal_strlit("\n");
    text::law_trimmed_text_is_what_stands_between(" "@, key, "\n"@);
    let id = agent_id_of(answers.agent_name@);
    let d = choose|d: Option<DiscordSetup>|
        #[trigger] discord_setup(answers.discord, d) && o.config@ == config_text(
            choice.toml_key@,
            text::trim(answers.api_key@),
            routing,
            id,
            d,
        );
    let line = choice.toml_key@ + " = \""@ + key + "\"\n"@;
    assert(setting(choice.toml_key@, key) == line);
    let rest = "\n"@ + routing_section(routing) + "[[agents]]\n"@ + setting("id"@, id)
        + "default = true\n"@ + discord_section(d, id);
    lemma_stands_between("[llm]\n"@, line, rest, o.config@);
}

} // verus!
