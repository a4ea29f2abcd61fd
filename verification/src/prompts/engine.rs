//! The templates of the prompts and their rendering.
use crate::text;
use crate::text::cat3;
use crate::text_map::TextMap;
use minijinja::Value;
use vstd::prelude::*;

verus! {

#[verifier::external_type_specification]
#[verifier::external_body]
pub struct ExEnvironment<'source>(minijinja::Environment<'source>);

/// The sources of the templates that an environment holds, by their names.
pub uninterp spec fn env_templates(env: minijinja::Environment<'static>) -> Map<
    Seq<char>,
    Seq<char>,
>;

/// An environment without templates.
pub open spec fn no_templates() -> Map<Seq<char>, Seq<char>> {
    Map::empty()
}

/// Calls `minijinja::Environment::new`, whose result holds no templates.
#[verifier::external_body]
fn new_environment() -> (r: minijinja::Environment<'static>)
    ensures
        env_templates(r) == no_templates(),
{
    minijinja::Environment::new()
}

/// The source of a template with a given name is one that minijinja compiles.
pub uninterp spec fn compiles(name: Seq<char>, source: Seq<char>) -> bool;

/// Calls `minijinja::Environment::add_template_owned`. It succeeds where the
/// source compiles, and then the environment holds the source under the name.
/// Which sources compile is not stated, nor is what the environment holds after a
/// failure.
#[verifier::external_body]
fn add_template(env: &mut minijinja::Environment<'static>, name: &str, source: &str) -> (r: bool)
    ensures
        r == compiles(name@, source@),
        r ==> env_templates(*final(env)) == env_templates(*old(env)).insert(name@, source@),
{
    env.add_template_owned(name.to_owned(), source.to_owned()).is_ok()
}

/// Calls `minijinja::Environment::get_template`, which finds the templates that
/// the environment holds.
#[verifier::external_body]
fn has_template(env: &minijinja::Environment<'static>, name: &str) -> (r: bool)
    ensures
        r == env_templates(*env).contains_key(name@),
{
    env.get_template(name).is_ok()
}

/// Information about a skill for template rendering.
#[derive(Clone, Debug)]
pub struct SkillInfo {
    pub name: String,
    pub description: String,
    pub location: String,
}

/// A skill as its texts.
pub struct SkillView {
    pub name: Seq<char>,
    pub description: Seq<char>,
    pub location: Seq<char>,
}

impl View for SkillInfo {
    type V = SkillView;

    open spec fn view(&self) -> SkillView {
        SkillView {
            name: self.name@,
            description: self.description@,
            location: self.location@,
        }
    }
}

/// The views of skills.
pub open spec fn skill_views(skills: Seq<SkillInfo>) -> Seq<SkillView> {
    Seq::new(skills.len(), |i: int| skills[i]@)
}

/// The value of a template variable.
#[derive(Clone, Debug)]
pub enum Var {
    /// An optional text that is not there.
    Missing,
    Flag(bool),
    Count(u64),
    Text(String),
    Skills(Vec<SkillInfo>),
}

/// The value of a template variable, as a mathematical value.
pub enum VarView {
    Missing,
    Flag(bool),
    Count(nat),
    Text(Seq<char>),
    Skills(Seq<SkillView>),
}

impl View for Var {
    type V = VarView;

    open spec fn view(&self) -> VarView {
        match self {
            Var::Missing => VarView::Missing,
            Var::Flag(b) => VarView::Flag(*b),
            Var::Count(n) => VarView::Count(*n as nat),
            Var::Text(s) => VarView::Text(s@),
            Var::Skills(l) => VarView::Skills(skill_views(l@)),
        }
    }
}

/// The views of named variables.
pub open spec fn var_views(vars: Seq<(String, Var)>) -> Seq<(Seq<char>, VarView)> {
    Seq::new(vars.len(), |i: int| (vars[i].0@, vars[i].1@))
}

/// The views of the variables of a rendering, where it has any.
pub open spec fn context_views(vars: Option<Vec<(String, Var)>>) -> Option<
    Seq<(Seq<char>, VarView)>,
> {
    match vars {
        Some(v) => Some(var_views(v@)),
        None => None,
    }
}

/// The value of an optional text.
pub open spec fn opt_var(s: Option<&str>) -> VarView {
    match s {
        Some(s) => VarView::Text(s@),
        None => VarView::Missing,
    }
}

fn opt_value(s: Option<&str>) -> (r: Var)
    ensures
        r@ == opt_var(s),
{
    match s {
        Some(s) => Var::Text(s.to_owned()),
        None => Var::Missing,
    }
}

/// What minijinja renders for one of the templates that an environment holds and
/// given variables, where it can render it. A template may refer to the others.
pub uninterp spec fn rendered(
    templates: Map<Seq<char>, Seq<char>>,
    name: Seq<char>,
    vars: Option<Seq<(Seq<char>, VarView)>>,
) -> Option<Seq<char>>;

/// Calls `minijinja::Template::render` on the template with a given name, each
/// variable handed over as minijinja's own value, or the undefined value where
/// there are no variables. What is rendered for a given template is not stated.
#[verifier::external_body]
fn render_template(
    env: &minijinja::Environment<'static>,
    name: &str,
    vars: &Option<Vec<(String, Var)>>,
) -> (r: Option<String>)
    requires
        env_templates(*env).contains_key(name@),
    ensures
        text::opt_text(r) == rendered(env_templates(*env), name@, context_views(*vars)),
{
    let context: Value = match vars {
        None => Value::UNDEFINED,
        Some(vars) => vars.iter().map(|v| (v.0.as_str(), match &v.1 {
            Var::Missing => Value::from(()),
            Var::Flag(b) => Value::from(*b),
            Var::Count(n) => Value::from(*n),
            Var::Text(s) => Value::from(s.as_str()),
            Var::Skills(l) => l.iter().map(|s| Value::from_iter(
                [("name", &s.name), ("description", &s.description), ("location", &s.location)],
            )).collect(),
        })).collect(),
    };
    env.get_template(name).ok()?.render(context).ok()
}

/// Why a prompt cannot be had.
#[derive(Clone, Debug)]
pub enum PromptError {
    /// The source of a template does not compile.
    Invalid { name: String },
    /// There is no template of the name.
    NotFound { name: String },
    /// The template cannot be rendered.
    Failed { name: String },
}

impl PromptError {
    /// The message of the error.
    pub fn message(&self) -> (r: String)
        ensures
            r@ == (match self {
                PromptError::Invalid { name } => "template '"@ + name@ + "' does not compile"@,
                PromptError::NotFound { name } => "template '"@ + name@ + "' not found"@,
                PromptError::Failed { name } => "failed to render template '"@ + name@ + "'"@,
            }),
    {
        match self {
            PromptError::Invalid { name } => cat3("template '", name.as_str(), "' does not compile"),
            PromptError::NotFound { name } => cat3("template '", name.as_str(), "' not found"),
            PromptError::Failed { name } => cat3("failed to render template '", name.as_str(), "'"),
        }
    }
}

/// A rendering of one of some templates gives what minijinja renders. It fails
/// where there is no template of the name, and where it cannot be rendered.
pub open spec fn answers(
    r: Result<String, PromptError>,
    templates: Map<Seq<char>, Seq<char>>,
    name: Seq<char>,
    vars: Option<Seq<(Seq<char>, VarView)>>,
) -> bool {
    match r {
        Ok(s) => templates.contains_key(name) && rendered(templates, name, vars) == Some(s@),
        Err(PromptError::NotFound { name: n }) => !templates.contains_key(name) && n@ == name,
        Err(PromptError::Failed { name: n }) => templates.contains_key(name) && rendered(
            templates,
            name,
            vars,
        ) is None && n@ == name,
        Err(PromptError::Invalid { .. }) => false,
    }
}

/// The names of the templates that an engine holds, in the order in which they
/// are registered: the prompts of the processes, then the fragments.
pub open spec fn template_names() -> Seq<Seq<char>> {
    seq![
        "channel"@,
        "branch"@,
        "worker"@,
        "cortex"@,
        "cortex_bulletin"@,
        "compactor"@,
        "memory_persistence"@,
        "ingestion"@,
        "cortex_chat"@,
        "cortex_profile"@,
        "fragments/worker_capabilities"@,
        "fragments/conversation_context"@,
        "fragments/skills_channel"@,
        "fragments/skills_worker"@,
        "fragments/system/retrigger"@,
        "fragments/system/truncation"@,
        "fragments/system/worker_overflow"@,
        "fragments/system/worker_compact"@,
        "fragments/system/memory_persistence"@,
        "fragments/system/cortex_synthesis"@,
        "fragments/system/profile_synthesis"@,
        "fragments/system/ingestion_chunk"@,
        "fragments/system/history_backfill"@,
        "fragments/system/tool_syntax_correction"@,
        "fragments/coalesce_hint"@,
    ]
}

/// The first name, from a given one on, whose source does not compile.
pub open spec fn first_invalid(
    names: Seq<Seq<char>>,
    texts: Map<Seq<char>, Seq<char>>,
    from: nat,
) -> Option<Seq<char>>
    decreases names.len() - from,
{
    if from >= names.len() {
        None
    } else if !compiles(names[from as int], texts[names[from as int]]) {
        Some(names[from as int])
    } else {
        first_invalid(names, texts, from + 1)
    }
}

/// The templates with given names, with their sources.
pub open spec fn registered(names: Seq<Seq<char>>, texts: Map<Seq<char>, Seq<char>>) -> Map<
    Seq<char>,
    Seq<char>,
> {
    Map::new(|name: Seq<char>| names.contains(name), |name: Seq<char>| texts[name])
}

/// Template engine for rendering system prompts with dynamic variables.
pub struct PromptEngine {
    env: minijinja::Environment<'static>,
    language: String,
}

impl PromptEngine {
    /// The templates of the engine.
    pub closed spec fn templates(&self) -> Map<Seq<char>, Seq<char>> {
        env_templates(self.env)
    }

    /// The language code that was asked for.
    pub closed spec fn code(&self) -> Seq<char> {
        self.language@
    }

    /// The engine holds every template that has a name of its own.
    pub open spec fn wf(&self) -> bool {
        forall|i: int|
            0 <= i < template_names().len() ==> self.templates().contains_key(
                #[trigger] template_names()[i],
            )
    }

    /// No rendering of a registered template fails for want of the template.
    pub proof fn law_registered_is_found(
        &self,
        i: int,
        vars: Option<Seq<(Seq<char>, VarView)>>,
        r: Result<String, PromptError>,
    )
        requires
            self.wf(),
            0 <= i < template_names().len(),
            answers(r, self.templates(), template_names()[i], vars),
        ensures
            !(r is Err && r->Err_0 is NotFound),
    {
    }

    /// Create a new engine from the texts of the templates. There are texts in
    /// English alone, so the language has no part in which are taken.
    pub fn new(language: &str, texts: &TextMap<String>) -> (r: Result<Self, PromptError>)
        requires
            forall|i: int|
                0 <= i < template_names().len() ==> texts@.contains_key(
                    #[trigger] template_names()[i],
                ),
        ensures
            match r {
                Ok(engine) => {
                    &&& first_invalid(template_names(), texts@, 0) is None
                    &&& engine.templates() == registered(template_names(), texts@)
                    &&& engine.code() == language@
                    &&& engine.wf()
                },
                Err(PromptError::Invalid { name }) => first_invalid(template_names(), texts@, 0)
                    == Some(name@),
                Err(_) => false,
            },
    {
        let names: Vec<&str> = vec![
        "channel",
        "branch",
        "worker",
        "cortex",
        "cortex_bulletin",
        "compactor",
        "memory_persistence",
        "ingestion",
        "cortex_chat",
        "cortex_profile",
        "fragments/worker_capabilities",
        "fragments/conversation_context",
        "fragments/skills_channel",
        "fragments/skills_worker",
        "fragments/system/retrigger",
        "fragments/system/truncation",
        "fragments/system/worker_overflow",
        "fragments/system/worker_compact",
        "fragments/system/memory_persistence",
        "fragments/system/cortex_synthesis",
        "fragments/system/profile_synthesis",
        "fragments/system/ingestion_chunk",
        "fragments/system/history_backfill",
        "fragments/system/tool_syntax_correction",
        "fragments/coalesce_hint",
        ];
        let ghost views = template_names();
        assert forall|i: int| 0 <= i < names@.len() implies (#[trigger] names@[i])@ == views[i] by {}
        let n: usize = names.len();
        let mut env = new_environment();
        let mut i: usize = 0;
        assert(env_templates(env) =~= registered(views.take(0), texts@));
        while i < n
            invariant
                i <= n,
                n == names@.len(),
                n == views.len(),
                views == template_names(),
                forall|k: int| 0 <= k < n ==> (#[trigger] names@[k])@ == views[k],
                forall|k: int| 0 <= k < n ==> texts@.contains_key(#[trigger] views[k]),
                env_templates(env) == registered(views.take(i as int), texts@),
                first_invalid(views, texts@, 0) == first_invalid(views, texts@, i as nat),
            decreases n - i,
        {
            let name: &str = names[i];
            assert(name@ == views[i as int]);
            let ghost before = env_templates(env);
            if let Some(source) = texts.get(name) {
                if !add_template(&mut env, name, source.as_str()) {
                    return Err(PromptError::Invalid { name: name.to_owned() });
                }
                proof {
                    let now = views.take(i + 1);
                    let earlier = views.take(i as int);
                    assert forall|k: Seq<char>| #[trigger] now.contains(k) <==> earlier.contains(k)
                        || k == name@ by {
                        if now.contains(k) {
                            let j = choose|j: int| 0 <= j < now.len() && now[j] == k;
                            if j < i {
                                assert(earlier[j] == k);
                            }
                        }
                        if earlier.contains(k) {
                            let j = choose|j: int| 0 <= j < earlier.len() && earlier[j] == k;
                            assert(now[j] == k);
                        }
                        if k == name@ {
                            assert(now[i as int] == k);
                        }
                    }
                    assert(env_templates(env) =~= registered(now, texts@));
                }
            }
            i = i + 1;
        }
        let r = PromptEngine { env, language: language.to_owned() };
        proof {
            assert(views.take(n as int) =~= views);
            assert forall|k: int| 0 <= k < views.len() implies r.templates().contains_key(
                #[trigger] template_names()[k],
            ) by {
                assert(views.contains(views[k]));
            }
        }
        Ok(r)
    }

    /// Render a template by name with the given variables.
    pub fn render(&self, template_name: &str, vars: &Option<Vec<(String, Var)>>) -> (r: Result<
        String,
        PromptError,
    >)
        ensures
            answers(r, self.templates(), template_name@, context_views(*vars)),
    {
        if !has_template(&self.env, template_name) {
            return Err(PromptError::NotFound { name: template_name.to_owned() });
        }
        match render_template(&self.env, template_name, vars) {
            Some(s) => Ok(s),
            None => Err(PromptError::Failed { name: template_name.to_owned() }),
        }
    }

    /// Render a template with a list of variables.
    pub fn render_map(&self, template_name: &str, vars: Vec<(String, Var)>) -> (r: Result<
        String,
        PromptError,
    >)
        ensures
            answers(r, self.templates(), template_name@, Some(var_views(vars@))),
    {
        self.render(template_name, &Some(vars))
    }

    /// Render a template without variables.
    pub fn render_static(&self, template_name: &str) -> (r: Result<String, PromptError>)
        ensures
            answers(r, self.templates(), template_name@, None),
    {
        self.render(template_name, &None)
    }

    /// Get the configured language code.
    pub fn language(&self) -> (r: &str)
        ensures
            r@ == self.code(),
    {
        self.language.as_str()
    }

    /// The worker capabilities fragment.
    pub fn render_worker_capabilities(&self, browser_enabled: bool, web_search_enabled: bool, opencode_enabled: bool) -> (r: Result<String, PromptError>)
        ensures
            answers(
                r,
                self.templates(),
                "fragments/worker_capabilities"@,
                Some(
                    seq![
                        ("browser_enabled"@, VarView::Flag(browser_enabled)),
                        ("web_search_enabled"@, VarView::Flag(web_search_enabled)),
                        ("opencode_enabled"@, VarView::Flag(opencode_enabled)),
                    ],
                ),
            ),
    {
        let mut vars: Vec<(String, Var)> = Vec::new();
        vars.push(("browser_enabled".to_owned(), Var::Flag(browser_enabled)));
        vars.push(("web_search_enabled".to_owned(), Var::Flag(web_search_enabled)));
        vars.push(("opencode_enabled".to_owned(), Var::Flag(opencode_enabled)));
        assert(var_views(vars@) =~= seq![
            ("browser_enabled"@, VarView::Flag(browser_enabled)),
            ("web_search_enabled"@, VarView::Flag(web_search_enabled)),
            ("opencode_enabled"@, VarView::Flag(opencode_enabled)),
        ]);
        self.render_map("fragments/worker_capabilities", vars)
    }

    /// The conversation context fragment.
    pub fn render_conversation_context(&self, platform: &str, server_name: Option<&str>, channel_name: Option<&str>) -> (r: Result<String, PromptError>)
        ensures
            answers(
                r,
                self.templates(),
                "fragments/conversation_context"@,
                Some(
                    seq![
                        ("platform"@, VarView::Text(platform@)),
                        ("server_name"@, opt_var(server_name)),
                        ("channel_name"@, opt_var(channel_name)),
                    ],
                ),
            ),
    {
        let mut vars: Vec<(String, Var)> = Vec::new();
        vars.push(("platform".to_owned(), Var::Text(platform.to_owned())));
        vars.push(("server_name".to_owned(), opt_value(server_name)));
        vars.push(("channel_name".to_owned(), opt_value(channel_name)));
        assert(var_views(vars@) =~= seq![
            ("platform"@, VarView::Text(platform@)),
            ("server_name"@, opt_var(server_name)),
            ("channel_name"@, opt_var(channel_name)),
        ]);
        self.render_map("fragments/conversation_context", vars)
    }

    /// The skills fragment of a channel.
    pub fn render_skills_channel(&self, skills: Vec<SkillInfo>) -> (r: Result<String, PromptError>)
        ensures
            answers(
                r,
                self.templates(),
                "fragments/skills_channel"@,
                Some(
                    seq![
                        ("skills"@, VarView::Skills(skill_views(skills@))),
                    ],
                ),
            ),
    {
        let mut vars: Vec<(String, Var)> = Vec::new();
        vars.push(("skills".to_owned(), Var::Skills(skills)));
        assert(var_views(vars@) =~= seq![
            ("skills"@, VarView::Skills(skill_views(skills@))),
        ]);
        self.render_map("fragments/skills_channel", vars)
    }

    /// The system prompt of a worker, with its directories.
    pub fn render_worker_prompt(&self, instance_dir: &str, workspace_dir: &str) -> (r: Result<String, PromptError>)
        ensures
            answers(
                r,
                self.templates(),
                "worker"@,
                Some(
                    seq![
                        ("instance_dir"@, VarView::Text(instance_dir@)),
                        ("workspace_dir"@, VarView::Text(workspace_dir@)),
                    ],
                ),
            ),
    {
        let mut vars: Vec<(String, Var)> = Vec::new();
        vars.push(("instance_dir".to_owned(), Var::Text(instance_dir.to_owned())));
        vars.push(("workspace_dir".to_owned(), Var::Text(workspace_dir.to_owned())));
        assert(var_views(vars@) =~= seq![
            ("instance_dir"@, VarView::Text(instance_dir@)),
            ("workspace_dir"@, VarView::Text(workspace_dir@)),
        ]);
        self.render_map("worker", vars)
    }

    /// The system prompt of a branch, with its directories.
    pub fn render_branch_prompt(&self, instance_dir: &str, workspace_dir: &str) -> (r: Result<String, PromptError>)
        ensures
            answers(
                r,
                self.templates(),
                "branch"@,
                Some(
                    seq![
                        ("instance_dir"@, VarView::Text(instance_dir@)),
                        ("workspace_dir"@, VarView::Text(workspace_dir@)),
                    ],
                ),
            ),
    {
        let mut vars: Vec<(String, Var)> = Vec::new();
        vars.push(("instance_dir".to_owned(), Var::Text(instance_dir.to_owned())));
        vars.push(("workspace_dir".to_owned(), Var::Text(workspace_dir.to_owned())));
        assert(var_views(vars@) =~= seq![
            ("instance_dir"@, VarView::Text(instance_dir@)),
            ("workspace_dir"@, VarView::Text(workspace_dir@)),
        ]);
        self.render_map("branch", vars)
    }

    /// The skills fragment of a worker.
    pub fn render_skills_worker(&self, skill_name: &str, skill_content: &str) -> (r: Result<String, PromptError>)
        ensures
            answers(
                r,
                self.templates(),
                "fragments/skills_worker"@,
                Some(
                    seq![
                        ("skill_name"@, VarView::Text(skill_name@)),
                        ("skill_content"@, VarView::Text(skill_content@)),
                    ],
                ),
            ),
    {
        let mut vars: Vec<(String, Var)> = Vec::new();
        vars.push(("skill_name".to_owned(), Var::Text(skill_name.to_owned())));
        vars.push(("skill_content".to_owned(), Var::Text(skill_content.to_owned())));
        assert(var_views(vars@) =~= seq![
            ("skill_name"@, VarView::Text(skill_name@)),
            ("skill_content"@, VarView::Text(skill_content@)),
        ]);
        self.render_map("fragments/skills_worker", vars)
    }

    /// The message that starts a channel's turn again.
    pub fn render_system_retrigger(&self) -> (r: Result<String, PromptError>)
        ensures
            answers(r, self.templates(), "fragments/system/retrigger"@, None),
    {
        self.render_static("fragments/system/retrigger")
    }

    /// The correction for a tool call that is written as plain text.
    pub fn render_system_tool_syntax_correction(&self) -> (r: Result<String, PromptError>)
        ensures
            answers(r, self.templates(), "fragments/system/tool_syntax_correction"@, None),
    {
        self.render_static("fragments/system/tool_syntax_correction")
    }

    /// The marker of a truncated history.
    pub fn render_system_truncation(&self, remove_count: usize) -> (r: Result<String, PromptError>)
        ensures
            answers(
                r,
                self.templates(),
                "fragments/system/truncation"@,
                Some(
                    seq![
                        ("remove_count"@, VarView::Count(remove_count as nat)),
                    ],
                ),
            ),
    {
        let mut vars: Vec<(String, Var)> = Vec::new();
        vars.push(("remove_count".to_owned(), Var::Count(remove_count as u64)));
        assert(var_views(vars@) =~= seq![
            ("remove_count"@, VarView::Count(remove_count as nat)),
        ]);
        self.render_map("fragments/system/truncation", vars)
    }

    /// The message after a worker's context has overflowed.
    pub fn render_system_worker_overflow(&self) -> (r: Result<String, PromptError>)
        ensures
            answers(r, self.templates(), "fragments/system/worker_overflow"@, None),
    {
        self.render_static("fragments/system/worker_overflow")
    }

    /// The message that stands for a worker's compacted history.
    pub fn render_system_worker_compact(&self, remove_count: usize, recap: &str) -> (r: Result<String, PromptError>)
        ensures
            answers(
                r,
                self.templates(),
                "fragments/system/worker_compact"@,
                Some(
                    seq![
                        ("remove_count"@, VarView::Count(remove_count as nat)),
                        ("recap"@, VarView::Text(recap@)),
                    ],
                ),
            ),
    {
        let mut vars: Vec<(String, Var)> = Vec::new();
        vars.push(("remove_count".to_owned(), Var::Count(remove_count as u64)));
        vars.push(("recap".to_owned(), Var::Text(recap.to_owned())));
        assert(var_views(vars@) =~= seq![
            ("remove_count"@, VarView::Count(remove_count as nat)),
            ("recap"@, VarView::Text(recap@)),
        ]);
        self.render_map("fragments/system/worker_compact", vars)
    }

    /// The memory persistence prompt.
    pub fn render_system_memory_persistence(&self) -> (r: Result<String, PromptError>)
        ensures
            answers(r, self.templates(), "fragments/system/memory_persistence"@, None),
    {
        self.render_static("fragments/system/memory_persistence")
    }

    /// The profile synthesis prompt, with identity and bulletin.
    pub fn render_system_profile_synthesis(&self, identity_context: Option<&str>, memory_bulletin: Option<&str>) -> (r: Result<String, PromptError>)
        ensures
            answers(
                r,
                self.templates(),
                "fragments/system/profile_synthesis"@,
                Some(
                    seq![
                        ("identity_context"@, opt_var(identity_context)),
                        ("memory_bulletin"@, opt_var(memory_bulletin)),
                    ],
                ),
            ),
    {
        let mut vars: Vec<(String, Var)> = Vec::new();
        vars.push(("identity_context".to_owned(), opt_value(identity_context)));
        vars.push(("memory_bulletin".to_owned(), opt_value(memory_bulletin)));
        assert(var_views(vars@) =~= seq![
            ("identity_context"@, opt_var(identity_context)),
            ("memory_bulletin"@, opt_var(memory_bulletin)),
        ]);
        self.render_map("fragments/system/profile_synthesis", vars)
    }

    /// The cortex synthesis prompt.
    pub fn render_system_cortex_synthesis(&self, max_words: usize, raw_sections: &str) -> (r: Result<String, PromptError>)
        ensures
            answers(
                r,
                self.templates(),
                "fragments/system/cortex_synthesis"@,
                Some(
                    seq![
                        ("max_words"@, VarView::Count(max_words as nat)),
                        ("raw_sections"@, VarView::Text(raw_sections@)),
                    ],
                ),
            ),
    {
        let mut vars: Vec<(String, Var)> = Vec::new();
        vars.push(("max_words".to_owned(), Var::Count(max_words as u64)));
        vars.push(("raw_sections".to_owned(), Var::Text(raw_sections.to_owned())));
        assert(var_views(vars@) =~= seq![
            ("max_words"@, VarView::Count(max_words as nat)),
            ("raw_sections"@, VarView::Text(raw_sections@)),
        ]);
        self.render_map("fragments/system/cortex_synthesis", vars)
    }

    /// The prompt for a chunk of an ingested file.
    pub fn render_system_ingestion_chunk(&self, filename: &str, chunk_number: usize, total_chunks: usize, chunk: &str) -> (r: Result<String, PromptError>)
        ensures
            answers(
                r,
                self.templates(),
                "fragments/system/ingestion_chunk"@,
                Some(
                    seq![
                        ("filename"@, VarView::Text(filename@)),
                        ("chunk_number"@, VarView::Count(chunk_number as nat)),
                        ("total_chunks"@, VarView::Count(total_chunks as nat)),
                        ("chunk"@, VarView::Text(chunk@)),
                    ],
                ),
            ),
    {
        let mut vars: Vec<(String, Var)> = Vec::new();
        vars.push(("filename".to_owned(), Var::Text(filename.to_owned())));
        vars.push(("chunk_number".to_owned(), Var::Count(chunk_number as u64)));
        vars.push(("total_chunks".to_owned(), Var::Count(total_chunks as u64)));
        vars.push(("chunk".to_owned(), Var::Text(chunk.to_owned())));
        assert(var_views(vars@) =~= seq![
            ("filename"@, VarView::Text(filename@)),
            ("chunk_number"@, VarView::Count(chunk_number as nat)),
            ("total_chunks"@, VarView::Count(total_chunks as nat)),
            ("chunk"@, VarView::Text(chunk@)),
        ]);
        self.render_map("fragments/system/ingestion_chunk", vars)
    }

    /// The wrapper around a backfilled history.
    pub fn render_system_history_backfill(&self, transcript: &str) -> (r: Result<String, PromptError>)
        ensures
            answers(
                r,
                self.templates(),
                "fragments/system/history_backfill"@,
                Some(
                    seq![
                        ("transcript"@, VarView::Text(transcript@)),
                    ],
                ),
            ),
    {
        let mut vars: Vec<(String, Var)> = Vec::new();
        vars.push(("transcript".to_owned(), Var::Text(transcript.to_owned())));
        assert(var_views(vars@) =~= seq![
            ("transcript"@, VarView::Text(transcript@)),
        ]);
        self.render_map("fragments/system/history_backfill", vars)
    }

    /// The hint that messages were batched.
    pub fn render_coalesce_hint(&self, message_count: usize, elapsed: &str, unique_senders: usize) -> (r: Result<String, PromptError>)
        ensures
            answers(
                r,
                self.templates(),
                "fragments/coalesce_hint"@,
                Some(
                    seq![
                        ("message_count"@, VarView::Count(message_count as nat)),
                        ("elapsed"@, VarView::Text(elapsed@)),
                        ("unique_senders"@, VarView::Count(unique_senders as nat)),
                    ],
                ),
            ),
    {
        let mut vars: Vec<(String, Var)> = Vec::new();
        vars.push(("message_count".to_owned(), Var::Count(message_count as u64)));
        vars.push(("elapsed".to_owned(), Var::Text(elapsed.to_owned())));
        vars.push(("unique_senders".to_owned(), Var::Count(unique_senders as u64)));
        assert(var_views(vars@) =~= seq![
            ("message_count"@, VarView::Count(message_count as nat)),
            ("elapsed"@, VarView::Text(elapsed@)),
            ("unique_senders"@, VarView::Count(unique_senders as nat)),
        ]);
        self.render_map("fragments/coalesce_hint", vars)
    }

    /// The system prompt of a channel, with all its parts.
    pub fn render_channel_prompt(&self, identity_context: Option<&str>, memory_bulletin: Option<&str>, skills_prompt: Option<&str>, worker_capabilities: &str, conversation_context: Option<&str>, status_text: Option<&str>, coalesce_hint: Option<&str>) -> (r: Result<String, PromptError>)
        ensures
            answers(
                r,
                self.templates(),
                "channel"@,
                Some(
                    seq![
                        ("identity_context"@, opt_var(identity_context)),
                        ("memory_bulletin"@, opt_var(memory_bulletin)),
                        ("skills_prompt"@, opt_var(skills_prompt)),
                        ("worker_capabilities"@, VarView::Text(worker_capabilities@)),
                        ("conversation_context"@, opt_var(conversation_context)),
                        ("status_text"@, opt_var(status_text)),
                        ("coalesce_hint"@, opt_var(coalesce_hint)),
                    ],
                ),
            ),
    {
        let mut vars: Vec<(String, Var)> = Vec::new();
        vars.push(("identity_context".to_owned(), opt_value(identity_context)));
        vars.push(("memory_bulletin".to_owned(), opt_value(memory_bulletin)));
        vars.push(("skills_prompt".to_owned(), opt_value(skills_prompt)));
        vars.push(("worker_capabilities".to_owned(), Var::Text(worker_capabilities.to_owned())));
        vars.push(("conversation_context".to_owned(), opt_value(conversation_context)));
        vars.push(("status_text".to_owned(), opt_value(status_text)));
        vars.push(("coalesce_hint".to_owned(), opt_value(coalesce_hint)));
        assert(var_views(vars@) =~= seq![
            ("identity_context"@, opt_var(identity_context)),
            ("memory_bulletin"@, opt_var(memory_bulletin)),
            ("skills_prompt"@, opt_var(skills_prompt)),
            ("worker_capabilities"@, VarView::Text(worker_capabilities@)),
            ("conversation_context"@, opt_var(conversation_context)),
            ("status_text"@, opt_var(status_text)),
            ("coalesce_hint"@, opt_var(coalesce_hint)),
        ]);
        self.render_map("channel", vars)
    }

    /// The system prompt of the cortex chat.
    pub fn render_cortex_chat_prompt(&self, identity_context: Option<&str>, memory_bulletin: Option<&str>, channel_transcript: Option<&str>, worker_capabilities: &str) -> (r: Result<String, PromptError>)
        ensures
            answers(
                r,
                self.templates(),
                "cortex_chat"@,
                Some(
                    seq![
                        ("identity_context"@, opt_var(identity_context)),
                        ("memory_bulletin"@, opt_var(memory_bulletin)),
                        ("channel_transcript"@, opt_var(channel_transcript)),
                        ("worker_capabilities"@, VarView::Text(worker_capabilities@)),
                    ],
                ),
            ),
    {
        let mut vars: Vec<(String, Var)> = Vec::new();
        vars.push(("identity_context".to_owned(), opt_value(identity_context)));
        vars.push(("memory_bulletin".to_owned(), opt_value(memory_bulletin)));
        vars.push(("channel_transcript".to_owned(), opt_value(channel_transcript)));
        vars.push(("worker_capabilities".to_owned(), Var::Text(worker_capabilities.to_owned())));
        assert(var_views(vars@) =~= seq![
            ("identity_context"@, opt_var(identity_context)),
            ("memory_bulletin"@, opt_var(memory_bulletin)),
            ("channel_transcript"@, opt_var(channel_transcript)),
            ("worker_capabilities"@, VarView::Text(worker_capabilities@)),
        ]);
        self.render_map("cortex_chat", vars)
    }
}

/// An optional text is handed over as that text, and is missing where there is none.
pub proof fn law_optional_texts_are_handed_over(s: &str)
    ensures
        opt_var(Some(s)) == VarView::Text(s@),
        opt_var(None) == VarView::Missing,
{
}

/// A template that an engine does not hold is not found; one that it holds is rendered
/// where it can be, and its rendering fails where it cannot.
pub proof fn law_rendering_is_answered(
    r: Result<String, PromptError>,
    templates: Map<Seq<char>, Seq<char>>,
    name: Seq<char>,
    vars: Option<Seq<(Seq<char>, VarView)>>,
)
    requires
        answers(r, templates, name, vars),
    ensures
        r is Ok <==> templates.contains_key(name) && rendered(templates, name, vars) is Some,
        r matches Ok(s) ==> rendered(templates, name, vars) == Some(s@),
        !templates.contains_key(name) ==> r is Err && r->Err_0 is NotFound,
        templates.contains_key(name) && r is Err ==> r->Err_0 is Failed,
{
}

/// An engine is made where every template compiles, and else the first one that does not
/// is named.
pub proof fn law_first_invalid_template_is_named(
    names: Seq<Seq<char>>,
    texts: Map<Seq<char>, Seq<char>>,
    from: nat,
)
    requires
        from <= names.len(),
    ensures
        first_invalid(names, texts, from) is None <==> forall|i: int|
            from <= i < names.len() ==> compiles(#[trigger] names[i], texts[names[i]]),
        first_invalid(names, texts, from) matches Some(n) ==> exists|i: int|
            #![trigger names[i]]
            from <= i < names.len() && names[i] == n && !compiles(n, texts[n]) && forall|k: int|
                from <= k < i ==> compiles(#[trigger] names[k], texts[names[k]]),
    decreases names.len() - from,
{
    if from < names.len() && compiles(names[from as int], texts[names[from as int]]) {
        law_first_invalid_template_is_named(names, texts, from + 1);
        if let Some(n) = first_invalid(names, texts, from) {
            let i = choose|i: int|
                #![trigger names[i]]
                from + 1 <= i < names.len() && names[i] == n && !compiles(n, texts[n])
                    && forall|k: int|
                    from + 1 <= k < i ==> compiles(#[trigger] names[k], texts[names[k]]);
            assert(names[i] == n);
            assert forall|k: int| from <= k < i implies compiles(
                #[trigger] names[k],
                texts[names[k]],
            ) by {
                if k > from {
                    assert(from + 1 <= k);
                }
            }
        }
    } else if from < names.len() {
        assert(names[from as int] == names[from as int]);
    }
}

/// An engine holds the templates with its names, each with its own text, and no other.
pub proof fn law_templates_keep_their_texts(
    names: Seq<Seq<char>>,
    texts: Map<Seq<char>, Seq<char>>,
    name: Seq<char>,
)
    ensures
        registered(names, texts).contains_key(name) <==> names.contains(name),
        names.contains(name) ==> registered(names, texts)[name] == texts[name],
{
}

} // verus!
