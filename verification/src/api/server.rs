//! Requests on scheduled prompts, running processes, the cortex chat, uploads and
//! the files of the web interface.
use crate::api::ApiError;
use crate::cron::store::{CronConfig, CronExecutionStats};
use crate::config::clone_opt;
use crate::outside;
use crate::outside::{fresh_id, guess_media_type, read_uuid};
use crate::paths;
use crate::paths::{path_file_name, path_join, split_extension};
use crate::text;
use crate::text::{cat3, slice_text, str_eq, to_chars};
use vstd::prelude::*;

verus! {

// ---------------------------------------------------------------------------
// Scheduled prompts
// ---------------------------------------------------------------------------

/// Seconds between runs where a request names none.
pub const DEFAULT_INTERVAL_SECS: u64 = 3600;

/// Executions to list where a request names no number.
pub const DEFAULT_EXECUTIONS_LIMIT: i64 = 50;

/// A request for a scheduled prompt.
pub struct CreateCronRequest {
    pub id: String,
    pub prompt: String,
    pub interval_secs: u64,
    pub delivery_target: String,
    pub active_start_hour: Option<u8>,
    pub active_end_hour: Option<u8>,
    pub enabled: bool,
}

/// The scheduled prompt that a request asks for. Active hours count only where
/// both ends are given.
pub fn requested_cron(request: &CreateCronRequest) -> (r: CronConfig)
    ensures
        r.id == request.id,
        r.prompt == request.prompt,
        r.interval_secs == request.interval_secs,
        r.delivery_target == request.delivery_target,
        r.active_hours == (match (request.active_start_hour, request.active_end_hour) {
            (Some(start), Some(end)) => Some((start, end)),
            _ => None,
        }),
        r.enabled == request.enabled,
{
    let active_hours = match (request.active_start_hour, request.active_end_hour) {
        (Some(start), Some(end)) => Some((start, end)),
        _ => None,
    };
    CronConfig {
        id: request.id.clone(),
        prompt: request.prompt.clone(),
        interval_secs: request.interval_secs,
        delivery_target: request.delivery_target.clone(),
        active_hours,
        enabled: request.enabled,
    }
}

/// What was done to a scheduled prompt.
#[derive(Clone, Copy, Debug, PartialEq, Eq, Structural)]
pub enum CronAction {
    Saved,
    Deleted,
    Triggered,
    Toggled(bool),
}

/// How an action is reported.
pub open spec fn action_text(action: CronAction) -> Seq<char> {
    match action {
        CronAction::Saved => "' saved successfully"@,
        CronAction::Deleted => "' deleted successfully"@,
        CronAction::Triggered => "' triggered"@,
        CronAction::Toggled(true) => "' enabled"@,
        CronAction::Toggled(false) => "' disabled"@,
    }
}

/// Reports what was done to a scheduled prompt.
pub fn cron_message(id: &str, action: CronAction) -> (r: String)
    ensures
        r@ == "Cron job '"@ + id@ + action_text(action),
{
    let tail = match action {
        CronAction::Saved => "' saved successfully",
        CronAction::Deleted => "' deleted successfully",
        CronAction::Triggered => "' triggered",
        CronAction::Toggled(enabled) => if enabled {
            "' enabled"
        } else {
            "' disabled"
        },
    };
    cat3("Cron job '", id, tail)
}

/// A scheduled prompt with what is known of its executions.
pub struct CronJobWithStats {
    pub id: String,
    pub prompt: String,
    pub interval_secs: u64,
    pub delivery_target: String,
    pub enabled: bool,
    pub active_hours: Option<(u8, u8)>,
    pub success_count: u64,
    pub failure_count: u64,
    pub last_executed_at: Option<String>,
}

/// Puts a scheduled prompt together with its executions.
pub fn job_with_stats(config: &CronConfig, stats: &CronExecutionStats) -> (r: CronJobWithStats)
    ensures
        r.id == config.id,
        r.prompt == config.prompt,
        r.interval_secs == config.interval_secs,
        r.delivery_target == config.delivery_target,
        r.enabled == config.enabled,
        r.active_hours == config.active_hours,
        r.success_count == stats.success_count,
        r.failure_count == stats.failure_count,
        r.last_executed_at == stats.last_executed_at,
{
    CronJobWithStats {
        id: config.id.clone(),
        prompt: config.prompt.clone(),
        interval_secs: config.interval_secs,
        delivery_target: config.delivery_target.clone(),
        enabled: config.enabled,
        active_hours: config.active_hours,
        success_count: stats.success_count,
        failure_count: stats.failure_count,
        last_executed_at: clone_opt(&stats.last_executed_at),
    }
}

// ---------------------------------------------------------------------------
// Running processes
// ---------------------------------------------------------------------------

/// A process to cancel.
pub enum CancelTarget {
    Worker(String),
    Branch(String),
}

/// Finds out which process a request wants to cancel. It fails where the kind of
/// the process is not known, and where its identifier is none.
pub fn cancel_target(process_type: &str, process_id: &str) -> (r: Result<CancelTarget, ApiError>)
    ensures
        match r {
            Ok(CancelTarget::Worker(id)) => process_type@ == "worker"@ && outside::uuid_form(
                process_id@,
            ) == Some(id@),
            Ok(CancelTarget::Branch(id)) => process_type@ == "branch"@ && process_type@
                != "worker"@ && outside::uuid_form(process_id@) == Some(id@),
            Err(e) => e == ApiError::BadRequest && ((process_type@ != "worker"@ && process_type@
                != "branch"@) || outside::uuid_form(process_id@) is None),
        },
{
    if str_eq(process_type, "worker") {
        match read_uuid(process_id) {
            Some(id) => Ok(CancelTarget::Worker(id)),
            None => Err(ApiError::BadRequest),
        }
    } else if str_eq(process_type, "branch") {
        match read_uuid(process_id) {
            Some(id) => Ok(CancelTarget::Branch(id)),
            None => Err(ApiError::BadRequest),
        }
    } else {
        Err(ApiError::BadRequest)
    }
}

/// What is answered when a process was cancelled, or when it was not running.
pub fn cancel_answer(target: &CancelTarget, process_id: &str, was_running: bool) -> (r: Result<
    String,
    ApiError,
>)
    ensures
        match r {
            Ok(message) => was_running && message@ == (match target {
                CancelTarget::Worker(_) => "Worker "@,
                CancelTarget::Branch(_) => "Branch "@,
            }) + process_id@ + " cancelled"@,
            Err(e) => !was_running && e == ApiError::NotFound,
        },
{
    if !was_running {
        return Err(ApiError::NotFound);
    }
    match target {
        CancelTarget::Worker(_) => Ok(cat3("Worker ", process_id, " cancelled")),
        CancelTarget::Branch(_) => Ok(cat3("Branch ", process_id, " cancelled")),
    }
}

// ---------------------------------------------------------------------------
// The cortex chat
// ---------------------------------------------------------------------------

/// Messages of a thread where a request names no number.
pub const DEFAULT_CHAT_LIMIT: i64 = 50;

/// Messages of a thread, or events, at most.
pub const MAX_EVENTS_LIMIT: i64 = 200;

/// The number of messages or events to read.
pub fn events_limit(limit: i64) -> (r: i64)
    ensures
        r == (if limit < 200 {
            limit
        } else {
            200
        }),
{
    if limit < MAX_EVENTS_LIMIT {
        limit
    } else {
        MAX_EVENTS_LIMIT
    }
}

/// The thread to read: the one that is asked for, else the latest, else a fresh
/// one.
pub fn choose_thread(asked: Option<String>, latest: Option<String>, fresh: String) -> (r: String)
    ensures
        r == (match asked {
            Some(t) => t,
            None => match latest {
                Some(t) => t,
                None => fresh,
            },
        }),
{
    match asked {
        Some(t) => t,
        None => match latest {
            Some(t) => t,
            None => fresh,
        },
    }
}

/// The thread to read. Where none is asked for and there is none, it gets a new
/// identifier.
pub fn resolve_thread(asked: Option<String>, latest: Option<String>) -> (r: String)
    ensures
        asked is Some ==> r == asked->0,
        asked is None && latest is Some ==> r == latest->0,
        asked is None && latest is None ==> r@.len() == 36,
{
    let fresh = fresh_id();
    choose_thread(asked, latest, fresh)
}

/// An event of the cortex chat.
#[derive(Clone, Copy, Debug, PartialEq, Eq, Structural)]
pub enum ChatEventKind {
    Thinking,
    ToolStarted,
    ToolCompleted,
    Done,
    Error,
}

/// The name under which an event is streamed.
pub fn chat_event_name(kind: ChatEventKind) -> (r: &'static str)
    ensures
        r@ == (match kind {
            ChatEventKind::Thinking => "thinking"@,
            ChatEventKind::ToolStarted => "tool_started"@,
            ChatEventKind::ToolCompleted => "tool_completed"@,
            ChatEventKind::Done => "done"@,
            ChatEventKind::Error => "error"@,
        }),
{
    match kind {
        ChatEventKind::Thinking => "thinking",
        ChatEventKind::ToolStarted => "tool_started",
        ChatEventKind::ToolCompleted => "tool_completed",
        ChatEventKind::Done => "done",
        ChatEventKind::Error => "error",
    }
}

// ---------------------------------------------------------------------------
// Uploads
// ---------------------------------------------------------------------------

/// The name under which an upload is kept: the last component of the name that it
/// came with, which leads out of no directory.
pub open spec fn upload_name(given: Option<Seq<char>>, id: Seq<char>) -> Seq<char> {
    let name = match given {
        Some(n) => n,
        None => "upload-"@ + id + ".txt"@,
    };
    match paths::file_name(name) {
        Some(n) => n,
        None => "upload.txt"@,
    }
}

/// The name under which an upload is kept. `id` is used where it came without a
/// name.
pub fn safe_name(given: &Option<String>, id: &str) -> (r: String)
    ensures
        r@ == upload_name(text::opt_text(*given), id@),
{
    let name = match given {
        Some(n) => n.clone(),
        None => cat3("upload-", id, ".txt"),
    };
    match path_file_name(name.as_str()) {
        Some(n) => n,
        None => "upload.txt".to_owned(),
    }
}

/// A name beside a name that is taken: with the first characters of an identifier
/// before the extension, which is `txt` where there is none.
pub open spec fn beside(name: Seq<char>, id: Seq<char>) -> Seq<char> {
    let ext = match paths::name_extension(name) {
        Some(e) => e,
        None => "txt"@,
    };
    paths::name_stem(name) + "-"@ + id.take(8) + "."@ + ext
}

/// A name beside a name that is taken.
pub fn unique_name(name: &str, id: &str) -> (r: String)
    requires
        id@.len() >= 8,
    ensures
        r@ == beside(name@, id@),
{
    let (stem, ext) = split_extension(name);
    let v = to_chars(id);
    let part = slice_text(&v, 0, 8);
    assert(part@ =~= id@.take(8));
    let mut out = cat3(stem.as_str(), "-", part.as_str());
    out.append(".");
    match ext {
        Some(e) => {
            out.append(e.as_str());
        },
        None => {
            out.append("txt");
        },
    }
    out
}

/// The names of an upload: the one that it is reported under, and one to fall back
/// on where that is taken. Nothing is stated of the identifiers that go into them
/// but that they are as long as identifiers are.
pub fn upload_names(given: &Option<String>) -> (r: (String, String))
    ensures
        exists|id: Seq<char>|
            id.len() == 36 && #[trigger] upload_name(text::opt_text(*given), id) == r.0@,
        exists|id: Seq<char>| id.len() == 36 && #[trigger] beside(r.0@, id) == r.1@,
{
    let id = fresh_id();
    let name = safe_name(given, id.as_str());
    let other = fresh_id();
    let unique = unique_name(name.as_str(), other.as_str());
    (name, unique)
}

/// An upload is kept under a name without a directory, whatever name it came with.
pub proof fn law_upload_name_has_no_directory(given: Option<Seq<char>>, id: Seq<char>)
    ensures
        !upload_name(given, id).contains('/'),
        upload_name(given, id).len() > 0,
{
    let name = match given {
        Some(n) => n,
        None => "upload-"@ + id + ".txt"@,
    };
    reveal_strlit("upload.txt");
    assert(!"upload.txt"@.contains('/'));
    let parts = text::split(name, '/');
    paths::lemma_last_component(parts, parts.len());
    if paths::file_name(name) is Some {
        let n = paths::file_name(name)->0;
        let k = choose|k: int| 0 <= k < parts.len() && parts[k] == n;
        text::lemma_split_parts(name, '/', k);
    }
}

// ---------------------------------------------------------------------------
// The web interface
// ---------------------------------------------------------------------------

/// A path without its leading slashes.
pub open spec fn relative(path: Seq<char>) -> Seq<char>
    decreases path.len(),
{
    if path.len() > 0 && path[0] == '/' {
        relative(path.drop_first())
    } else {
        path
    }
}

/// The path of the file that a request names.
pub fn asset_path(path: &str) -> (r: String)
    ensures
        r@ == relative(path@),
{
    let v = to_chars(path);
    let n: usize = v.len();
    let mut i: usize = 0;
    assert(v@.skip(0) =~= path@);
    while i < n && v[i] == '/'
        invariant
            n == v@.len(),
            i <= n,
            relative(path@) == relative(v@.skip(i as int)),
        decreases n - i,
    {
        assert(v@.skip(i as int).drop_first() =~= v@.skip(i + 1));
        i = i + 1;
    }
    proof {
        if i < n {
            assert(v@.skip(i as int)[0] == v@[i as int]);
        }
        assert(v@.skip(i as int) =~= v@.subrange(i as int, n as int));
    }
    slice_text(&v, i, n)
}

/// How a request for a file is answered.
pub enum StaticAnswer {
    /// With the file, as this media type.
    Asset(String),
    /// With the page of the application, which knows the path.
    Index,
    /// Not at all.
    NotFound,
}

/// How a request for a file is answered: with the file where there is one, else
/// with the page of the application.
pub fn static_answer(path: &str, found: bool, has_index: bool) -> (r: StaticAnswer)
    ensures
        match r {
            StaticAnswer::Asset(mime) => found && mime@ == outside::media_type(path@),
            StaticAnswer::Index => !found && has_index,
            StaticAnswer::NotFound => !found && !has_index,
        },
{
    if found {
        StaticAnswer::Asset(guess_media_type(path))
    } else if has_index {
        StaticAnswer::Index
    } else {
        StaticAnswer::NotFound
    }
}

/// A change of the files that say who an agent is.
pub struct IdentityUpdate {
    pub soul: Option<String>,
    pub identity: Option<String>,
    pub user: Option<String>,
}

/// A file of a workspace to write, where there is something to write.
pub open spec fn file_to_write(
    workspace: Seq<char>,
    name: Seq<char>,
    content: Option<String>,
) -> Seq<(Seq<char>, Seq<char>)> {
    match content {
        Some(c) => seq![(paths::joined(workspace, name), c@)],
        None => Seq::empty(),
    }
}

/// Files as their paths and contents.
pub open spec fn files_view(files: Seq<(String, String)>) -> Seq<(Seq<char>, Seq<char>)> {
    Seq::new(files.len(), |i: int| (files[i].0@, files[i].1@))
}

fn push_file(
    files: &mut Vec<(String, String)>,
    workspace: &str,
    name: &str,
    content: &Option<String>,
)
    ensures
        files_view(final(files)@) == files_view(old(files)@) + file_to_write(
            workspace@,
            name@,
            *content,
        ),
{
    if let Some(c) = content {
        files.push((path_join(workspace, name), c.clone()));
    }
    assert(files_view(files@) =~= files_view(old(files)@) + file_to_write(
        workspace@,
        name@,
        *content,
    ));
}

/// The files to write for a change of an agent's identity, with their contents.
pub fn identity_files(workspace: &str, update: &IdentityUpdate) -> (r: Vec<(String, String)>)
    ensures
        files_view(r@) == file_to_write(workspace@, "SOUL.md"@, update.soul) + file_to_write(
            workspace@,
            "IDENTITY.md"@,
            update.identity,
        ) + file_to_write(workspace@, "USER.md"@, update.user),
{
    let mut files: Vec<(String, String)> = Vec::new();
    push_file(&mut files, workspace, "SOUL.md", &update.soul);
    assert(files_view(files@) =~= file_to_write(workspace@, "SOUL.md"@, update.soul));
    push_file(&mut files, workspace, "IDENTITY.md", &update.identity);
    push_file(&mut files, workspace, "USER.md", &update.user);
    files
}

/// An upload keeps the name that follows the last slash of the name it came with; without
/// a name it gets one with its identifier, and one that leads upwards is replaced.
pub proof fn law_uploads_keep_their_names(dir: Seq<char>, name: Seq<char>, id: Seq<char>)
    requires
        !name.contains('/'),
        name.len() > 0,
        !id.contains('/'),
    ensures
        name != "."@ && name != ".."@ ==> upload_name(Some(name), id) == name && upload_name(
            Some(dir + "/"@ + name),
            id,
        ) == name,
        name == ".."@ ==> upload_name(Some(dir + "/"@ + name), id) == "upload.txt"@,
        upload_name(None, id) == "upload-"@ + id + ".txt"@,
{
    reveal_strlit("upload-");
    reveal_strlit(".txt");
    reveal_strlit(".");
    reveal_strlit("..");
    paths::law_file_name_follows_the_last_slash(dir, name);
    let s = "upload-"@ + id + ".txt"@;
    assert(!s.contains('/')) by {
        if s.contains('/') {
            let k = choose|k: int| 0 <= k < s.len() && s[k] == '/';
            if k < 7 {
                assert(s[k] == "upload-"@[k]);
            } else if k < 7 + id.len() {
                assert(id[k - 7] == '/');
            } else {
                assert(s[k] == ".txt"@[k - 7 - id.len()]);
            }
        }
    }
    assert(s.len() > 2);
    paths::law_file_name_follows_the_last_slash(dir, s);
}

/// A name beside a taken one has eight characters of an identifier in front of its
/// extension, and `txt` as its extension where it had none.
pub proof fn law_taken_names_get_an_identifier(stem: Seq<char>, ext: Seq<char>, id: Seq<char>)
    requires
        stem.len() > 0,
        !ext.contains('.'),
        id.len() >= 8,
    ensures
        beside(stem + "."@ + ext, id) == stem + "-"@ + id.take(8) + "."@ + ext,
        beside(ext, id) == ext + "-"@ + id.take(8) + "."@ + "txt"@,
{
    paths::law_extension_follows_the_last_dot(stem, ext);
}

/// A path is taken without the slashes in front of it, and without any other change.
pub proof fn law_leading_slashes_are_dropped(path: Seq<char>)
    ensures
        relative("/"@ + path) == relative(path),
        path.len() == 0 || path[0] != '/' ==> relative(path) == path,
        relative(path).len() > 0 ==> relative(path)[0] != '/',
    decreases path.len(),
{
    reveal_strlit("/");
    let s = "/"@ + path;
    assert(s.drop_first() == path);
    if path.len() > 0 && path[0] == '/' {
        law_leading_slashes_are_dropped(path.drop_first());
    }
}

/// What was done to a scheduled prompt is told apart in what is reported.
pub proof fn law_actions_are_told_apart(a: CronAction, b: CronAction)
    requires
        action_text(a) == action_text(b),
    ensures
        a == b,
{
    reveal_strlit("' saved successfully");
    reveal_strlit("' deleted successfully");
    reveal_strlit("' triggered");
    reveal_strlit("' enabled");
    reveal_strlit("' disabled");
    assert(action_text(CronAction::Saved).len() == 20);
    assert(action_text(CronAction::Deleted).len() == 22);
    assert(action_text(CronAction::Triggered).len() == 11);
    assert(action_text(CronAction::Toggled(true)).len() == 9);
    assert(action_text(CronAction::Toggled(false)).len() == 10);
}

/// A file of an agent's identity is written where there is a text for it, below the
/// workspace, and with that text.
pub proof fn law_identity_is_written(workspace: Seq<char>, name: Seq<char>, content: String)
    requires
        workspace.len() > 0 && workspace.last() != '/',
        name.len() > 0 && name[0] != '/',
    ensures
        file_to_write(workspace, name, Some(content)) == seq![
            (workspace + "/"@ + name, content@),
        ],
        file_to_write(workspace, name, None).len() == 0,
{
    paths::law_parts_are_joined_with_a_slash(workspace, name);
}

} // verus!
