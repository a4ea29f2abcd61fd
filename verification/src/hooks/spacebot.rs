//! The hook of channels, branches and workers: it reports tool use and keeps
//! secrets from going through tools.
use crate::process::{ProcessEvent, ProcessId};
use crate::text;
use vstd::prelude::*;

verus! {

/// The patterns of the secrets that are looked for, in order: the keys of OpenAI,
/// Anthropic and OpenRouter, PEM private keys, GitHub tokens, Google keys, the
/// tokens of Discord, of Slack bots, of Slack apps and of Telegram bots, and the
/// keys of Brave Search.
pub open spec fn leak_patterns() -> Seq<Seq<char>> {
    seq![
        "sk-[a-zA-Z0-9]{20,}"@,
        "sk-ant-[a-zA-Z0-9_-]{20,}"@,
        "sk-or-[a-zA-Z0-9_-]{20,}"@,
        "-----BEGIN.*PRIVATE KEY-----"@,
        "ghp_[a-zA-Z0-9]{36}"@,
        "AIza[0-9A-Za-z_-]{35}"@,
        "[MN][A-Za-z0-9]{23,}\\.[A-Za-z0-9_-]{6}\\.[A-Za-z0-9_-]{27,}"@,
        "xoxb-[0-9]{10,}-[0-9A-Za-z-]+"@,
        "xapp-[0-9]-[A-Z0-9]+-[0-9]+-[a-f0-9]+"@,
        "\\d{8,}:[A-Za-z0-9_-]{35}"@,
        "BSA[a-zA-Z0-9]{20,}"@,
    ]
}

/// The first part of a text that a regular expression matches, where there is
/// one.
pub uninterp spec fn first_match(pattern: Seq<char>, content: Seq<char>) -> Option<Seq<char>>;

/// Calls `regex::Regex::new` and `regex::Regex::find`. The result is the text of
/// the first match, which is a part of the content; it is none where nothing
/// matches, or where the pattern is no regular expression. What a given pattern
/// matches is not stated.
#[verifier::external_body]
fn find_match(pattern: &str, content: &str) -> (r: Option<String>)
    ensures
        text::opt_text(r) == first_match(pattern@, content@),
        r is Some ==> text::has_text(content@, r->0@),
{
    regex::Regex::new(pattern).ok()?.find(content).map(|m| m.as_str().to_owned())
}

/// The match of the first pattern, from a given one on, that matches.
pub open spec fn leak_from(
    patterns: Seq<Seq<char>>,
    from: nat,
    content: Seq<char>,
) -> Option<Seq<char>>
    decreases patterns.len() - from,
{
    if from >= patterns.len() {
        None
    } else {
        match first_match(patterns[from as int], content) {
            Some(m) => Some(m),
            None => leak_from(patterns, from + 1, content),
        }
    }
}

/// The secret that a text leaks: the match of the first pattern that matches.
pub open spec fn leak(content: Seq<char>) -> Option<Seq<char>> {
    leak_from(leak_patterns(), 0, content)
}

/// A text leaks nothing if and only if no pattern matches it.
pub proof fn law_every_pattern_is_tried(content: Seq<char>)
    ensures
        leak(content) is None <==> forall|i: int|
            0 <= i < leak_patterns().len() ==> first_match(#[trigger] leak_patterns()[i], content)
                is None,
{
    lemma_leak_from(leak_patterns(), 0, content);
}

proof fn lemma_leak_from(patterns: Seq<Seq<char>>, from: nat, content: Seq<char>)
    ensures
        leak_from(patterns, from, content) is None <==> forall|i: int|
            from <= i < patterns.len() ==> first_match(#[trigger] patterns[i], content) is None,
    decreases patterns.len() - from,
{
    if from < patterns.len() {
        lemma_leak_from(patterns, from + 1, content);
        if leak_from(patterns, from, content) is None {
            assert(first_match(patterns[from as int], content) is None);
        }
    }
}

/// Looks for a secret in a text.
pub fn scan_for_leaks(content: &str) -> (r: Option<String>)
    ensures
        text::opt_text(r) == leak(content@),
        r is Some ==> text::has_text(content@, r->0@),
{
    let patterns: Vec<&str> = vec![
        "sk-[a-zA-Z0-9]{20,}",
        "sk-ant-[a-zA-Z0-9_-]{20,}",
        "sk-or-[a-zA-Z0-9_-]{20,}",
        "-----BEGIN.*PRIVATE KEY-----",
        "ghp_[a-zA-Z0-9]{36}",
        "AIza[0-9A-Za-z_-]{35}",
        "[MN][A-Za-z0-9]{23,}\\.[A-Za-z0-9_-]{6}\\.[A-Za-z0-9_-]{27,}",
        "xoxb-[0-9]{10,}-[0-9A-Za-z-]+",
        "xapp-[0-9]-[A-Z0-9]+-[0-9]+-[a-f0-9]+",
        "\\d{8,}:[A-Za-z0-9_-]{35}",
        "BSA[a-zA-Z0-9]{20,}",
    ];
    let ghost views = leak_patterns();
    assert forall|i: int| 0 <= i < patterns@.len() implies (#[trigger] patterns@[i])@
        == views[i] by {}
    let n: usize = patterns.len();
    let mut i: usize = 0;
    while i < n
        invariant
            i <= n,
            n == patterns@.len(),
            n == views.len(),
            views == leak_patterns(),
            forall|k: int| 0 <= k < n ==> (#[trigger] patterns@[k])@ == views[k],
            leak(content@) == leak_from(views, i as nat, content@),
        decreases n - i,
    {
        let pattern: &str = patterns[i];
        assert(pattern@ == views[i as int]);
        if let Some(m) = find_match(pattern, content) {
            return Some(m);
        }
        i = i + 1;
    }
    None
}

/// What is done with a tool call: it runs, and its start is reported, or it is
/// skipped.
pub enum ToolCallAction {
    Continue { event: ProcessEvent },
    Skip { reason: String },
}

/// What is done after a tool call: the process goes on, and the result is
/// reported, or the process is terminated.
pub enum ToolResultAction {
    Continue { event: ProcessEvent },
    Terminate { reason: String },
}

/// Hook for observing agent behavior and sending events.
pub struct SpacebotHook {
    pub process_id: ProcessId,
    pub channel_id: Option<String>,
}

impl SpacebotHook {
    /// Create a new hook.
    pub fn new(process_id: ProcessId, channel_id: Option<String>) -> (r: Self)
        ensures
            r.process_id == process_id,
            r.channel_id == channel_id,
    {
        SpacebotHook { process_id, channel_id }
    }

    fn channel(&self) -> (r: Option<String>)
        ensures
            r == self.channel_id,
    {
        match &self.channel_id {
            Some(id) => Some(id.clone()),
            None => None,
        }
    }

    /// The status update to send.
    pub fn send_status(&self, status: &str) -> (r: ProcessEvent)
        ensures
            r matches ProcessEvent::StatusUpdate { process_id, status: s } && process_id
                == self.process_id && s@ == status@,
    {
        ProcessEvent::StatusUpdate { process_id: self.process_id.copy(), status: status.to_owned() }
    }

    /// A call of a given tool is started.
    pub open spec fn starts(&self, r: ToolCallAction, tool_name: Seq<char>) -> bool {
        r matches ToolCallAction::Continue { event } && event matches ProcessEvent::ToolStarted {
            process_id,
            channel_id,
            tool_name: name,
        } && process_id == self.process_id && channel_id == self.channel_id && name@ == tool_name
    }

    /// Decides on a tool call, given the secret that its arguments leak.
    pub fn decide_tool_call(&self, tool_name: &str, leak: &Option<String>) -> (r: ToolCallAction)
        ensures
            match leak {
                Some(_) => r matches ToolCallAction::Skip { reason } && reason@
                    == "Tool call blocked: arguments contained a secret."@,
                None => self.starts(r, tool_name@),
            },
    {
        match leak {
            Some(_) => ToolCallAction::Skip {
                reason: "Tool call blocked: arguments contained a secret.".to_owned(),
            },
            None => ToolCallAction::Continue {
                event: ProcessEvent::ToolStarted {
                    process_id: self.process_id.copy(),
                    channel_id: self.channel(),
                    tool_name: tool_name.to_owned(),
                },
            },
        }
    }

    /// Scans the arguments of a tool call for secrets before it runs.
    pub fn on_tool_call(&self, tool_name: &str, args: &str) -> (r: ToolCallAction)
        ensures
            match leak(args@) {
                Some(_) => r matches ToolCallAction::Skip { reason } && reason@
                    == "Tool call blocked: arguments contained a secret."@,
                None => self.starts(r, tool_name@),
            },
    {
        let found = scan_for_leaks(args);
        self.decide_tool_call(tool_name, &found)
    }

    /// The result of a given tool is reported, cut as it is given.
    pub open spec fn reports(
        &self,
        r: ToolResultAction,
        tool_name: Seq<char>,
        capped: Seq<char>,
    ) -> bool {
        r matches ToolResultAction::Continue { event } && event matches ProcessEvent::ToolCompleted {
            process_id,
            channel_id,
            tool_name: name,
            result,
        } && process_id == self.process_id && channel_id == self.channel_id && name@ == tool_name
            && result@ == capped
    }

    /// Decides on the result of a tool call, given the secret that it leaks and
    /// the result as it is reported.
    pub fn decide_tool_result(
        &self,
        tool_name: &str,
        leak: &Option<String>,
        capped: &str,
    ) -> (r: ToolResultAction)
        ensures
            match leak {
                Some(_) => r matches ToolResultAction::Terminate { reason } && reason@
                    == "Tool output contained a secret. Agent terminated to prevent exfiltration."@,
                None => self.reports(r, tool_name@, capped@),
            },
    {
        match leak {
            Some(_) => ToolResultAction::Terminate {
                reason:
                    "Tool output contained a secret. Agent terminated to prevent exfiltration.".to_owned(),
            },
            None => ToolResultAction::Continue {
                event: ProcessEvent::ToolCompleted {
                    process_id: self.process_id.copy(),
                    channel_id: self.channel(),
                    tool_name: tool_name.to_owned(),
                    result: capped.to_owned(),
                },
            },
        }
    }

    /// Scans the result of a tool call for secrets. The whole result is scanned,
    /// and a cut one is reported.
    pub fn on_tool_result(&self, tool_name: &str, result: &str, capped: &str) -> (r:
        ToolResultAction)
        ensures
            match leak(result@) {
                Some(_) => r matches ToolResultAction::Terminate { reason } && reason@
                    == "Tool output contained a secret. Agent terminated to prevent exfiltration."@,
                None => self.reports(r, tool_name@, capped@),
            },
    {
        let found = scan_for_leaks(result);
        self.decide_tool_result(tool_name, &found, capped)
    }
}

/// The arguments and the result of a tool are searched for the keys of the providers, for
/// private keys and for the tokens of the platforms: a text leaks what the first pattern
/// that matches finds in it.
pub proof fn law_first_matching_pattern_counts(content: Seq<char>, i: int)
    requires
        0 <= i < leak_patterns().len(),
        first_match(leak_patterns()[i], content) is Some,
        forall|k: int| 0 <= k < i ==> first_match(#[trigger] leak_patterns()[k], content) is None,
    ensures
        leak(content) == first_match(leak_patterns()[i], content),
{
    lemma_first_matching(leak_patterns(), 0, content, i);
}

proof fn lemma_first_matching(patterns: Seq<Seq<char>>, from: nat, content: Seq<char>, i: int)
    requires
        from <= i < patterns.len(),
        first_match(patterns[i], content) is Some,
        forall|k: int| from <= k < i ==> first_match(#[trigger] patterns[k], content) is None,
    ensures
        leak_from(patterns, from, content) == first_match(patterns[i], content),
    decreases patterns.len() - from,
{
    if from < i {
        assert(first_match(patterns[from as int], content) is None);
        lemma_first_matching(patterns, from + 1, content, i);
    }
}

/// A match of any of the patterns is a leak.
pub proof fn law_no_secret_is_passed_over(content: Seq<char>)
    ensures
        first_match("sk-[a-zA-Z0-9]{20,}"@, content) is Some ==> leak(content) is Some,
        first_match("sk-ant-[a-zA-Z0-9_-]{20,}"@, content) is Some ==> leak(content) is Some,
        first_match("sk-or-[a-zA-Z0-9_-]{20,}"@, content) is Some ==> leak(content) is Some,
        first_match("-----BEGIN.*PRIVATE KEY-----"@, content) is Some ==> leak(content) is Some,
        first_match("ghp_[a-zA-Z0-9]{36}"@, content) is Some ==> leak(content) is Some,
        first_match("AIza[0-9A-Za-z_-]{35}"@, content) is Some ==> leak(content) is Some,
        first_match(
            "[MN][A-Za-z0-9]{23,}\\.[A-Za-z0-9_-]{6}\\.[A-Za-z0-9_-]{27,}"@,
            content,
        ) is Some ==> leak(content) is Some,
        first_match("xoxb-[0-9]{10,}-[0-9A-Za-z-]+"@, content) is Some ==> leak(content) is Some,
        first_match("xapp-[0-9]-[A-Z0-9]+-[0-9]+-[a-f0-9]+"@, content) is Some ==> leak(content)
            is Some,
        first_match("\\d{8,}:[A-Za-z0-9_-]{35}"@, content) is Some ==> leak(content) is Some,
        first_match("BSA[a-zA-Z0-9]{20,}"@, content) is Some ==> leak(content) is Some,
{
    law_every_pattern_is_tried(content);
    let p = leak_patterns();
    assert(p[0] == "sk-[a-zA-Z0-9]{20,}"@);
    assert(p[1] == "sk-ant-[a-zA-Z0-9_-]{20,}"@);
    assert(p[2] == "sk-or-[a-zA-Z0-9_-]{20,}"@);
    assert(p[3] == "-----BEGIN.*PRIVATE KEY-----"@);
    assert(p[4] == "ghp_[a-zA-Z0-9]{36}"@);
    assert(p[5] == "AIza[0-9A-Za-z_-]{35}"@);
    assert(p[6] == "[MN][A-Za-z0-9]{23,}\\.[A-Za-z0-9_-]{6}\\.[A-Za-z0-9_-]{27,}"@);
    assert(p[7] == "xoxb-[0-9]{10,}-[0-9A-Za-z-]+"@);
    assert(p[8] == "xapp-[0-9]-[A-Z0-9]+-[0-9]+-[a-f0-9]+"@);
    assert(p[9] == "\\d{8,}:[A-Za-z0-9_-]{35}"@);
    assert(p[10] == "BSA[a-zA-Z0-9]{20,}"@);
}

} // verus!
