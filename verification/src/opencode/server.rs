//! OpenCode servers, one for each working directory, and the pool of them.
//!
//! The port of a server follows from its directory, so that a server that is left
//! over from an earlier run is found again.
use crate::hashing;
use crate::hashing::hash_path;
use crate::text;
use crate::text::{cat2, cat3, u64_text};
use crate::text_map::TextMap;
use vstd::prelude::*;

verus! {

/// Maximum health check attempts during server startup.
pub const HEALTH_CHECK_MAX_ATTEMPTS: u32 = 30;

/// Delay between health check attempts in milliseconds.
pub const HEALTH_CHECK_INTERVAL_MS: u64 = 1000;

/// Maximum restart attempts before giving up.
pub const MAX_RESTART_RETRIES: u32 = 5;

/// The lowest port of a server.
pub const FIRST_PORT: u16 = 10000;

/// The number of ports that servers share.
pub const PORT_COUNT: u64 = 50000;

/// The port of a directory with a given hash: one of the ports from 10000 up to
/// 59999.
pub fn port_of_hash(hash: u64) -> (r: u16)
    ensures
        r == 10000 + hash % 50000,
        10000 <= r < 60000,
{
    let offset: u64 = hash % PORT_COUNT;
    FIRST_PORT + offset as u16
}

/// The port of a directory.
pub open spec fn directory_port(directory: Seq<char>) -> int {
    10000 + hashing::path_hash(directory) % 50000
}

/// Derive a deterministic port from a directory path.
pub fn port_for_directory(directory: &str) -> (r: u16)
    ensures
        r == directory_port(directory@),
        10000 <= r < 60000,
{
    port_of_hash(hash_path(directory))
}

/// The base URL of the server on a port.
pub open spec fn url_of_port(port: int) -> Seq<char> {
    "http://127.0.0.1:"@ + text::decimal(port as nat)
}

fn port_url(port: u16) -> (r: String)
    ensures
        r@ == url_of_port(port as int),
{
    let digits = u64_text(port as u64);
    cat2("http://127.0.0.1:", digits.as_str())
}

/// What the client asks of a server.
pub enum Request {
    CreateSession,
    SendPrompt { session_id: String },
    SendPromptAsync { session_id: String },
    AbortSession { session_id: String },
    ReplyPermission { request_id: String },
    ReplyQuestion { request_id: String },
    SubscribeEvents,
    GetMessages { session_id: String },
}

impl Request {
    /// The path of the request below the base URL.
    pub open spec fn path(&self) -> Seq<char> {
        match self {
            Request::CreateSession => "/session"@,
            Request::SendPrompt { session_id } => "/session/"@ + session_id@ + "/message"@,
            Request::SendPromptAsync { session_id } => "/session/"@ + session_id@
                + "/prompt_async"@,
            Request::AbortSession { session_id } => "/session/"@ + session_id@ + "/abort"@,
            Request::ReplyPermission { request_id } => "/permission/"@ + request_id@ + "/reply"@,
            Request::ReplyQuestion { request_id } => "/question/"@ + request_id@ + "/reply"@,
            Request::SubscribeEvents => "/event"@,
            Request::GetMessages { session_id } => "/session/"@ + session_id@ + "/message"@,
        }
    }

    fn path_text(&self) -> (r: String)
        ensures
            r@ == self.path(),
    {
        match self {
            Request::CreateSession => "/session".to_owned(),
            Request::SendPrompt { session_id } => cat3("/session/", session_id.as_str(), "/message"),
            Request::SendPromptAsync { session_id } => cat3(
                "/session/",
                session_id.as_str(),
                "/prompt_async",
            ),
            Request::AbortSession { session_id } => cat3("/session/", session_id.as_str(), "/abort"),
            Request::ReplyPermission { request_id } => cat3(
                "/permission/",
                request_id.as_str(),
                "/reply",
            ),
            Request::ReplyQuestion { request_id } => cat3(
                "/question/",
                request_id.as_str(),
                "/reply",
            ),
            Request::SubscribeEvents => "/event".to_owned(),
            Request::GetMessages { session_id } => cat3("/session/", session_id.as_str(), "/message"),
        }
    }

    /// What a refused request is called.
    pub open spec fn failure_prefix(&self) -> Seq<char> {
        match self {
            Request::CreateSession => "create session failed ("@,
            Request::SendPrompt { .. } => "send prompt failed ("@,
            Request::SendPromptAsync { .. } => "async prompt failed ("@,
            Request::AbortSession { .. } => "abort session failed ("@,
            Request::ReplyPermission { .. } => "permission reply failed ("@,
            Request::ReplyQuestion { .. } => "question reply failed ("@,
            Request::SubscribeEvents => "event subscription failed ("@,
            Request::GetMessages { .. } => "get messages failed ("@,
        }
    }

    /// The message of a request that a server refuses with a status and a text.
    pub fn failure(&self, status: &str, body: &str) -> (r: String)
        ensures
            r@ == self.failure_prefix() + status@ + "): "@ + body@,
    {
        let prefix: &str = match self {
            Request::CreateSession => "create session failed (",
            Request::SendPrompt { .. } => "send prompt failed (",
            Request::SendPromptAsync { .. } => "async prompt failed (",
            Request::AbortSession { .. } => "abort session failed (",
            Request::ReplyPermission { .. } => "permission reply failed (",
            Request::ReplyQuestion { .. } => "question reply failed (",
            Request::SubscribeEvents => "event subscription failed (",
            Request::GetMessages { .. } => "get messages failed (",
        };
        let head = cat3(prefix, status, "): ");
        cat2(head.as_str(), body)
    }
}

/// What the start of a server does after a health check.
pub enum HealthWait {
    Ready,
    /// Check again after a pause of so many milliseconds.
    Again { pause_ms: u64 },
    Failed { message: String },
}

/// A running OpenCode server process bound to a specific directory.
pub struct OpenCodeServer {
    directory: String,
    /// Whether the process is a child of this one. That of a server that was
    /// found again is not.
    owned: bool,
    restart_count: u32,
}

/// A server as its directory, whether its process is a child, and the number of
/// its restarts.
pub struct ServerView {
    pub directory: Seq<char>,
    pub owned: bool,
    pub restart_count: nat,
}

impl DeepView for OpenCodeServer {
    type V = ServerView;

    closed spec fn deep_view(&self) -> ServerView {
        ServerView {
            directory: self.directory@,
            owned: self.owned,
            restart_count: self.restart_count as nat,
        }
    }
}

impl View for OpenCodeServer {
    type V = ServerView;

    open spec fn view(&self) -> ServerView {
        self.deep_view()
    }
}

/// The message of a server that never became healthy.
pub open spec fn unhealthy_message(directory: Seq<char>) -> Seq<char> {
    "OpenCode server for '"@ + directory + "' failed to become healthy after 30 attempts"@
}

/// The message of a server that was restarted too often.
pub open spec fn restarts_message(directory: Seq<char>) -> Seq<char> {
    "OpenCode server for '"@ + directory + "' exceeded max restart attempts (5)"@
}

impl OpenCodeServer {
    fn at(directory: &str, owned: bool) -> (r: Self)
        ensures
            r@ == (ServerView { directory: directory@, owned, restart_count: 0 }),
    {
        OpenCodeServer { directory: directory.to_owned(), owned, restart_count: 0 }
    }

    /// A server whose process is started here.
    pub fn spawn(directory: &str) -> (r: Self)
        ensures
            r@ == (ServerView { directory: directory@, owned: true, restart_count: 0 }),
    {
        OpenCodeServer::at(directory, true)
    }

    /// A server that an earlier run left on the port of the directory.
    pub fn reattach(directory: &str) -> (r: Self)
        ensures
            r@ == (ServerView { directory: directory@, owned: false, restart_count: 0 }),
    {
        OpenCodeServer::at(directory, false)
    }

    /// The arguments that start the process.
    pub fn arguments(&self) -> (r: Vec<String>)
        ensures
            text::texts(r@) == seq![
                "serve"@,
                "--port"@,
                text::decimal(directory_port(self@.directory) as nat),
            ],
    {
        let mut r: Vec<String> = Vec::new();
        r.push("serve".to_owned());
        r.push("--port".to_owned());
        r.push(u64_text(self.port() as u64));
        assert(text::texts(r@) =~= seq![
            "serve"@,
            "--port"@,
            text::decimal(directory_port(self@.directory) as nat),
        ]);
        r
    }

    /// Get the port this server is listening on.
    pub fn port(&self) -> (r: u16)
        ensures
            r == directory_port(self@.directory),
    {
        port_for_directory(self.directory.as_str())
    }

    /// Get the base URL for this server.
    pub fn base_url(&self) -> (r: String)
        ensures
            r@ == url_of_port(directory_port(self@.directory)),
    {
        port_url(self.port())
    }

    /// Get the directory this server is bound to.
    pub fn directory(&self) -> (r: &str)
        ensures
            r@ == self@.directory,
    {
        self.directory.as_str()
    }

    /// The number of restarts so far.
    pub fn restart_count(&self) -> (r: u32)
        ensures
            r == self@.restart_count,
    {
        self.restart_count
    }

    /// The URL of a request.
    pub fn url(&self, request: &Request) -> (r: String)
        ensures
            r@ == url_of_port(directory_port(self@.directory)) + request.path(),
    {
        let base = self.base_url();
        let path = request.path_text();
        cat2(base.as_str(), path.as_str())
    }

    /// The URL of the health check, and the one to fall back on.
    pub fn health_urls(&self) -> (r: (String, String))
        ensures
            r.0@ == url_of_port(directory_port(self@.directory)) + "/global/health"@,
            r.1@ == url_of_port(directory_port(self@.directory)) + "/api/health"@,
    {
        let base = self.base_url();
        (cat2(base.as_str(), "/global/health"), cat2(base.as_str(), "/api/health"))
    }

    /// Decides after the health check with a given number, counted from 1. After
    /// the pause that follows the last check the start is given up.
    pub fn wait_for_health(&self, attempt: u32, healthy: bool) -> (r: HealthWait)
        ensures
            attempt > 30 ==> (r matches HealthWait::Failed { message }
                && message@ == unhealthy_message(self@.directory)),
            attempt <= 30 && healthy ==> r is Ready,
            attempt <= 30 && !healthy ==> (r matches HealthWait::Again {
                pause_ms,
            } && pause_ms == 1000),
    {
        if attempt > HEALTH_CHECK_MAX_ATTEMPTS {
            HealthWait::Failed {
                message: cat3(
                    "OpenCode server for '",
                    self.directory.as_str(),
                    "' failed to become healthy after 30 attempts",
                ),
            }
        } else if healthy {
            HealthWait::Ready
        } else {
            HealthWait::Again { pause_ms: HEALTH_CHECK_INTERVAL_MS }
        }
    }

    /// Check if the server is still alive: a child by whether its process still
    /// runs, another by a health check.
    pub fn is_alive(&self, runs: bool, healthy: bool) -> (r: bool)
        ensures
            r == (if self@.owned {
                runs
            } else {
                healthy
            }),
    {
        if self.owned {
            runs
        } else {
            healthy
        }
    }

    /// Begins a restart, unless there were too many of them. It tells whether
    /// there is a process to kill first; from then on the server has none.
    pub fn restart(&mut self) -> (r: Result<bool, String>)
        requires
            old(self)@.restart_count < u32::MAX,
        ensures
            final(self)@.directory == old(self)@.directory,
            final(self)@.restart_count == old(self)@.restart_count + 1,
            match r {
                Ok(kill) => old(self)@.restart_count < 5 && kill
                    == old(self)@.owned && !final(self)@.owned,
                Err(message) => old(self)@.restart_count >= 5 && message@
                    == restarts_message(old(self)@.directory) && final(self)@.owned
                    == old(self)@.owned,
            },
    {
        self.restart_count = self.restart_count + 1;
        if self.restart_count > MAX_RESTART_RETRIES {
            return Err(
                cat3(
                    "OpenCode server for '",
                    self.directory.as_str(),
                    "' exceeded max restart attempts (5)",
                ),
            );
        }
        let kill = self.owned;
        self.owned = false;
        Ok(kill)
    }

    /// Takes over the process that a restart has started.
    pub fn restarted(&mut self)
        ensures
            final(self)@ == (ServerView { owned: true, ..old(self)@ }),
    {
        self.owned = true;
    }

    /// Gives up the process. It tells whether there is one to kill: that of a
    /// server that was found again is left running.
    pub fn kill(&mut self) -> (r: bool)
        ensures
            r == old(self)@.owned,
            final(self)@ == (ServerView { owned: false, ..old(self)@ }),
    {
        let r = self.owned;
        self.owned = false;
        r
    }

    fn copy(&self) -> (r: Self)
        ensures
            r@ == self@,
    {
        OpenCodeServer {
            directory: self.directory.clone(),
            owned: self.owned,
            restart_count: self.restart_count,
        }
    }
}

/// What the pool does first for a directory.
#[derive(Clone, Copy, Debug, PartialEq, Eq, Structural)]
pub enum PoolStep {
    /// The server is in the pool: check whether it is alive.
    CheckAlive,
    /// Try to find a server of an earlier run.
    Reattach,
}

/// What the pool does with a server.
#[derive(Clone, Copy, Debug, PartialEq, Eq, Structural)]
pub enum PoolAnswer {
    /// Hand out the pooled server.
    Use,
    /// Restart it, where told after killing its process, and hand it out.
    Restart { kill: bool },
    /// Spawn a server, put it into the pool and hand it out.
    Spawn,
}

/// Pool of OpenCode server processes, one per working directory.
pub struct OpenCodeServerPool {
    servers: TextMap<OpenCodeServer>,
    opencode_path: String,
    max_servers: usize,
}

/// The message of a pool that is full.
pub open spec fn limit_message(max_servers: nat) -> Seq<char> {
    "OpenCode server pool limit reached ("@ + text::decimal(max_servers)
        + "). Kill an existing server or increase the limit."@
}

impl View for OpenCodeServerPool {
    type V = Map<Seq<char>, ServerView>;

    closed spec fn view(&self) -> Map<Seq<char>, ServerView> {
        self.servers@
    }
}

impl OpenCodeServerPool {
    /// No directory has two servers, and each server is bound to the directory
    /// that it is kept for.
    pub closed spec fn wf(&self) -> bool {
        &&& self.servers.wf()
        &&& forall|d: Seq<char>| #[trigger]
            self.servers@.contains_key(d) ==> self.servers@[d].directory == d
    }

    /// Each pooled server is bound to the directory that it is kept for.
    pub proof fn law_one_directory_each(&self, directory: Seq<char>)
        requires
            self.wf(),
            self@.contains_key(directory),
        ensures
            self@[directory].directory == directory,
    {
    }

    /// The number of servers.
    pub closed spec fn count(&self) -> nat {
        self.servers.keys().len()
    }

    /// The most servers that may be spawned.
    pub closed spec fn limit(&self) -> nat {
        self.max_servers as nat
    }

    /// The program that is spawned.
    pub closed spec fn program(&self) -> Seq<char> {
        self.opencode_path@
    }

    /// The program and the limit are those of another pool.
    pub open spec fn same_settings(&self, other: &Self) -> bool {
        self.limit() == other.limit() && self.program() == other.program()
    }

    /// Create a new server pool.
    pub fn new(opencode_path: String, max_servers: usize) -> (r: Self)
        ensures
            r.wf(),
            r@ == Map::<Seq<char>, ServerView>::empty(),
            r.count() == 0,
            r.limit() == max_servers,
            r.program() == opencode_path@,
    {
        OpenCodeServerPool { servers: TextMap::new(), opencode_path, max_servers }
    }

    /// The program to spawn.
    pub fn opencode_path(&self) -> (r: &str)
        ensures
            r@ == self.program(),
    {
        self.opencode_path.as_str()
    }

    /// Number of active servers.
    pub fn server_count(&self) -> (r: usize)
        ensures
            r == self.count(),
    {
        self.servers.len()
    }

    /// Get a server for the given directory: what to do first. A server in the
    /// pool is checked; else one of an earlier run is looked for.
    pub fn get_or_create(&self, directory: &str) -> (r: PoolStep)
        ensures
            r == (if self@.contains_key(directory@) {
                PoolStep::CheckAlive
            } else {
                PoolStep::Reattach
            }),
    {
        if self.servers.contains_key(directory) {
            PoolStep::CheckAlive
        } else {
            PoolStep::Reattach
        }
    }

    /// The server of a directory.
    pub fn server(&self, directory: &str) -> (r: Option<&OpenCodeServer>)
        ensures
            match r {
                Some(s) => self@.contains_key(directory@) && s@ == self@[directory@],
                None => !self@.contains_key(directory@),
            },
    {
        self.servers.get(directory)
    }

    /// Goes on after the check of a pooled server: one that is dead is restarted.
    pub fn checked(&mut self, directory: &str, alive: bool) -> (r: Result<PoolAnswer, String>)
        requires
            old(self).wf(),
            old(self)@.contains_key(directory@),
            !alive ==> old(self)@[directory@].restart_count < u32::MAX,
        ensures
            final(self).wf(),
            final(self).same_settings(old(self)),
            final(self).count() == old(self).count(),
            alive ==> r == Ok::<PoolAnswer, String>(PoolAnswer::Use) && final(self)@ == old(self)@,
            !alive ==> {
                let s = old(self)@[directory@];
                let fits = s.restart_count < MAX_RESTART_RETRIES;
                &&& final(self)@ == old(self)@.insert(
                    directory@,
                    ServerView {
                        owned: s.owned && !fits,
                        restart_count: s.restart_count + 1,
                        ..s
                    },
                )
                &&& match r {
                    Ok(a) => fits && a == (PoolAnswer::Restart { kill: s.owned }),
                    Err(message) => !fits && message@ == restarts_message(s.directory),
                }
            },
    {
        if alive {
            return Ok(PoolAnswer::Use);
        }
        let mut server = match self.servers.get(directory) {
            Some(s) => s.copy(),
            None => OpenCodeServer::spawn(directory),
        };
        let outcome = server.restart();
        proof {
            self.servers.lemma_keys(directory@);
        }
        self.servers.insert(directory.to_owned(), server);
        match outcome {
            Ok(kill) => Ok(PoolAnswer::Restart { kill }),
            Err(message) => Err(message),
        }
    }

    /// Takes over the process that a restart has started.
    pub fn restarted(&mut self, directory: &str)
        requires
            old(self).wf(),
            old(self)@.contains_key(directory@),
        ensures
            final(self).wf(),
            final(self).same_settings(old(self)),
            final(self).count() == old(self).count(),
            final(self)@ == old(self)@.insert(
                directory@,
                (ServerView { owned: true, ..old(self)@[directory@] }),
            ),
    {
        let mut server = match self.servers.get(directory) {
            Some(s) => s.copy(),
            None => OpenCodeServer::spawn(directory),
        };
        server.restarted();
        self.servers.insert(directory.to_owned(), server);
    }

    /// Goes on after a server of an earlier run was looked for. One that responds
    /// is taken into the pool, whatever the limit; else a server is spawned,
    /// unless the pool is full.
    pub fn reattached(&mut self, directory: &str, responds: bool) -> (r: Result<
        PoolAnswer,
        String,
    >)
        requires
            old(self).wf(),
            !old(self)@.contains_key(directory@),
        ensures
            final(self).wf(),
            final(self).same_settings(old(self)),
            responds ==> r == Ok::<PoolAnswer, String>(PoolAnswer::Use) && final(self)@
                == old(self)@.insert(
                directory@,
                (ServerView { directory: directory@, owned: false, restart_count: 0 }),
            ) && final(self).count() == old(self).count() + 1,
            !responds ==> final(self)@ == old(self)@ && final(self).count() == old(self).count()
                && match r {
                Ok(a) => old(self).count() < old(self).limit() && a == PoolAnswer::Spawn,
                Err(message) => old(self).count() >= old(self).limit() && message@
                    == limit_message(old(self).limit()),
            },
    {
        if responds {
            let server = OpenCodeServer::reattach(directory);
            self.servers.insert(directory.to_owned(), server);
            return Ok(PoolAnswer::Use);
        }
        if self.servers.len() >= self.max_servers {
            let limit = u64_text(self.max_servers as u64);
            return Err(
                cat3(
                    "OpenCode server pool limit reached (",
                    limit.as_str(),
                    "). Kill an existing server or increase the limit.",
                ),
            );
        }
        Ok(PoolAnswer::Spawn)
    }

    /// Puts a server that was spawned into the pool.
    pub fn spawned(&mut self, directory: &str)
        requires
            old(self).wf(),
            !old(self)@.contains_key(directory@),
        ensures
            final(self).wf(),
            final(self).same_settings(old(self)),
            final(self).count() == old(self).count() + 1,
            final(self)@ == old(self)@.insert(
                directory@,
                (ServerView { directory: directory@, owned: true, restart_count: 0 }),
            ),
    {
        let server = OpenCodeServer::spawn(directory);
        self.servers.insert(directory.to_owned(), server);
    }

    /// Empties the pool. The result names the directories whose servers have a
    /// process to kill, each once.
    pub fn shutdown_all(&mut self) -> (r: Vec<String>)
        requires
            old(self).wf(),
        ensures
            final(self).wf(),
            final(self).same_settings(old(self)),
            final(self).count() == 0,
            final(self)@ == Map::<Seq<char>, ServerView>::empty(),
            forall|d: Seq<char>|
                #[trigger] text::texts(r@).contains(d) <==> old(self)@.contains_key(d)
                    && old(self)@[d].owned,
            text::texts(r@).no_duplicates(),
    {
        let n: usize = self.servers.len();
        let mut out: Vec<String> = Vec::new();
        let ghost keys = self.servers.keys();
        let ghost map = self.servers@;
        let mut i: usize = 0;
        while i < n
            invariant
                i <= n,
                n == keys.len(),
                keys == self.servers.keys(),
                map == self.servers@,
                self.servers.wf(),
                map == old(self)@,
                self.same_settings(old(self)),
                keys.no_duplicates(),
                forall|k: int|
                    0 <= k < out@.len() ==> exists|j: int|
                        0 <= j < i && keys[j] == (#[trigger] out@[k])@ && map[keys[j]].owned,
                forall|j: int|
                    0 <= j < i && map[keys[j]].owned ==> text::texts(out@).contains(
                        #[trigger] keys[j],
                    ),
                text::texts(out@).no_duplicates(),
            decreases n - i,
        {
            let (key, server) = self.servers.entry(i);
            let ghost before = out@;
            if server.owned {
                let name = key.clone();
                out.push(name);
                proof {
                    let after = text::texts(out@);
                    assert(after =~= text::texts(before).push(keys[i as int]));
                    assert(!text::texts(before).contains(keys[i as int])) by {
                        if text::texts(before).contains(keys[i as int]) {
                            let k = choose|k: int|
                                0 <= k < before.len() && text::texts(before)[k] == keys[i as int];
                            assert(before[k]@ == keys[i as int]);
                        }
                    }
                    assert(after[before.len() as int] == keys[i as int]);
                    assert forall|j: int| 0 <= j < i + 1 && map[keys[j]].owned implies after.contains(
                        #[trigger] keys[j],
                    ) by {
                        if j < i {
                            let k = choose|k: int|
                                0 <= k < before.len() && text::texts(before)[k] == keys[j];
                            assert(after[k] == keys[j]);
                        }
                    }
                    assert forall|k: int| 0 <= k < out@.len() implies exists|j: int|
                        0 <= j < i + 1 && keys[j] == (#[trigger] out@[k])@ && map[keys[j]].owned by {
                        if k < before.len() {
                            assert(out@[k] == before[k]);
                        } else {
                            assert(keys[i as int] == out@[k]@);
                        }
                    }
                }
            }
            i = i + 1;
        }
        proof {
            assert forall|d: Seq<char>| #[trigger] text::texts(out@).contains(d) <==> map.contains_key(
                d,
            ) && map[d].owned by {
                self.servers.lemma_keys(d);
                if text::texts(out@).contains(d) {
                    let k = choose|k: int| 0 <= k < out@.len() && text::texts(out@)[k] == d;
                    assert(out@[k]@ == d);
                    let j = choose|j: int|
                        0 <= j < i && keys[j] == out@[k]@ && map[keys[j]].owned;
                    assert(keys.contains(d));
                }
                if map.contains_key(d) && map[d].owned {
                    let j = choose|j: int| 0 <= j < keys.len() && keys[j] == d;
                    assert(text::texts(out@).contains(keys[j]));
                }
            }
        }
        self.servers = TextMap::new();
        out
    }
}

/// The port of a directory lies between 10000 and 59999, and the URL of its server names
/// it on the local machine.
pub proof fn law_servers_are_local(directory: Seq<char>)
    ensures
        10000 <= directory_port(directory) < 60000,
        (directory_port(directory) - 10000 - hashing::path_hash(directory)) % 50000 == 0,
        url_of_port(directory_port(directory)) == "http://127.0.0.1:"@ + text::decimal(
            directory_port(directory) as nat,
        ),
{
}

/// A request names its session or its question in its path, and says what it asks for.
pub proof fn law_requests_name_what_they_ask(r: Request, id: String)
    ensures
        r == (Request::SendPrompt { session_id: id }) || r == (Request::GetMessages {
            session_id: id,
        }) ==> r.path() == "/session/"@ + id@ + "/message"@,
        r == (Request::SendPromptAsync { session_id: id }) ==> r.path() == "/session/"@ + id@
            + "/prompt_async"@,
        r == (Request::AbortSession { session_id: id }) ==> r.path() == "/session/"@ + id@
            + "/abort"@,
        r == (Request::ReplyPermission { request_id: id }) ==> r.path() == "/permission/"@ + id@
            + "/reply"@,
        r == (Request::ReplyQuestion { request_id: id }) ==> r.path() == "/question/"@ + id@
            + "/reply"@,
        r is CreateSession ==> r.path() == "/session"@,
        r is SubscribeEvents ==> r.path() == "/event"@,
        r is CreateSession ==> r.failure_prefix() == "create session failed ("@,
        r is SendPrompt ==> r.failure_prefix() == "send prompt failed ("@,
        r is SendPromptAsync ==> r.failure_prefix() == "async prompt failed ("@,
        r is AbortSession ==> r.failure_prefix() == "abort session failed ("@,
        r is ReplyPermission ==> r.failure_prefix() == "permission reply failed ("@,
        r is ReplyQuestion ==> r.failure_prefix() == "question reply failed ("@,
        r is SubscribeEvents ==> r.failure_prefix() == "event subscription failed ("@,
        r is GetMessages ==> r.failure_prefix() == "get messages failed ("@,
{
}

/// A server that cannot be had is named with its directory, and a full pool with its limit.
pub proof fn law_failures_name_the_server(directory: Seq<char>, max: nat)
    ensures
        unhealthy_message(directory) == "OpenCode server for '"@ + directory
            + "' failed to become healthy after 30 attempts"@,
        restarts_message(directory) == "OpenCode server for '"@ + directory
            + "' exceeded max restart attempts (5)"@,
        limit_message(max) == "OpenCode server pool limit reached ("@ + text::decimal(max)
            + "). Kill an existing server or increase the limit."@,
{
}

} // verus!
