//! The command-line client: its configuration, the paths it calls, and the
//! text it takes from files and arguments.

use vstd::prelude::*;
use vstd::string::*;

use crate::tasks::{all_priorities, priority_value, TaskPriority};
use crate::text::{
    drop_trailing, eq_ignore_ascii_case, same_ignoring_ascii_case, same_text, trim, trim_end, trimmed,
    uuid_hyphenated, uuid_text, Strip,
};

verus! {

/// A failure of a command, with the exit code it ends the process with.
#[derive(Debug, Clone, PartialEq, Eq)]
pub struct CliError {
    pub message: String,
    pub exit_code: i32,
}

impl CliError {
    /// Any other failure: exit code 1.
    pub fn new(message: String) -> (r: CliError)
        ensures
            r.message == message,
            r.exit_code == 1,
    {
        CliError { message, exit_code: 1 }
    }

    /// Invalid arguments, input or missing configuration: exit code 2.
    pub fn validation(message: String) -> (r: CliError)
        ensures
            r.message == message,
            r.exit_code == 2,
    {
        CliError { message, exit_code: 2 }
    }

    /// The target was not found: exit code 5.
    pub fn not_found(message: String) -> (r: CliError)
        ensures
            r.message == message,
            r.exit_code == 5,
    {
        CliError { message, exit_code: 5 }
    }
}

/// The keys `config get`, `set` and `unset` accept.
pub const CONFIG_KEYS: [&'static str; 3] = ["api_url", "token", "tenant_id"];

/// The contents of the configuration file.
#[derive(Debug, Clone, PartialEq, Eq)]
pub struct TaskConfig {
    pub api_url: Option<String>,
    pub token: Option<String>,
    pub tenant_id: Option<String>,
}

impl Default for TaskConfig {
    fn default() -> (r: TaskConfig)
        ensures
            r.api_url is None && r.token is None && r.tenant_id is None,
    {
        TaskConfig { api_url: None, token: None, tenant_id: None }
    }
}

/// The text of an optional setting.
pub open spec fn setting_text(v: Option<String>) -> Option<Seq<char>> {
    match v {
        Some(s) => Some(s@),
        None => None,
    }
}

/// The setting a key names, none for an unknown key.
pub open spec fn setting(c: TaskConfig, key: Seq<char>) -> Option<String> {
    if key == "api_url"@ {
        c.api_url
    } else if key == "token"@ {
        c.token
    } else if key == "tenant_id"@ {
        c.tenant_id
    } else {
        None
    }
}

impl TaskConfig {
    /// The value of a key (none when unset or unknown).
    pub fn get(&self, key: &str) -> (r: Option<&String>)
        ensures
            match r {
                Some(v) => setting(*self, key@) == Some(*v),
                None => setting(*self, key@) is None,
            },
    {
        proof {
            reveal_strlit("api_url");
            reveal_strlit("token");
            reveal_strlit("tenant_id");
        }
        if same_text(key, "api_url") {
            self.api_url.as_ref()
        } else if same_text(key, "token") {
            self.token.as_ref()
        } else if same_text(key, "tenant_id") {
            self.tenant_id.as_ref()
        } else {
            None
        }
    }

    /// Sets (or with `None`, removes) a key; an unknown key changes nothing.
    pub fn set(&mut self, key: &str, value: Option<String>)
        ensures
            final(self).api_url == (if key@ == "api_url"@ { value } else { old(self).api_url }),
            final(self).token == (if key@ == "token"@ { value } else { old(self).token }),
            final(self).tenant_id == (if key@ == "tenant_id"@ { value } else { old(self).tenant_id }),
    {
        proof {
            reveal_strlit("api_url");
            reveal_strlit("token");
            reveal_strlit("tenant_id");
            assert("api_url"@.len() != "token"@.len());
            assert("api_url"@.len() != "tenant_id"@.len());
            assert("token"@.len() != "tenant_id"@.len());
        }
        if same_text(key, "api_url") {
            self.api_url = value;
        } else if same_text(key, "token") {
            self.token = value;
        } else if same_text(key, "tenant_id") {
            self.tenant_id = value;
        }
    }
}

/// Joining a relative component onto a path: a `/` between them unless the
/// path is empty or already ends with one.
pub open spec fn path_join(base: Seq<char>, component: Seq<char>) -> Seq<char> {
    if base.len() == 0 {
        component
    } else if base.last() == '/' {
        base + component
    } else {
        base + "/"@ + component
    }
}

/// `base` joined with the relative `component`.
pub fn join_path(base: &str, component: &str) -> (r: String)
    ensures
        r@ == path_join(base@, component@),
{
    proof {
        reveal_strlit("/");
    }
    let n = base.unicode_len();
    if n == 0 {
        component.to_owned()
    } else if base.get_char(n - 1) == '/' {
        base.to_owned().concat(component)
    } else {
        base.to_owned().concat("/").concat(component)
    }
}

/// Where the configuration file lives; a value so that tests can point it at a
/// temporary directory.
#[derive(Debug, Clone, PartialEq, Eq)]
pub struct ConfigStore {
    dir: String,
}

impl ConfigStore {
    /// The directory holding the file.
    pub closed spec fn dir_view(&self) -> Seq<char> {
        self.dir@
    }

    /// The store below `home`: `<home>/.config/task`.
    pub fn from_home(home: &str) -> (r: ConfigStore)
        ensures
            r.dir_view() == path_join(path_join(home@, ".config"@), "task"@),
    {
        let config = join_path(home, ".config");
        ConfigStore { dir: join_path(config.as_str(), "task") }
    }

    /// The directory holding the file.
    pub fn dir(&self) -> (r: &str)
        ensures
            r@ == self.dir_view(),
    {
        self.dir.as_str()
    }

    /// The file: `config.yaml` in the directory.
    pub fn path(&self) -> (r: String)
        ensures
            r@ == path_join(self.dir_view(), "config.yaml"@),
    {
        join_path(self.dir.as_str(), "config.yaml")
    }
}

/// The three settings an API call needs.
#[derive(Debug, Clone, PartialEq, Eq)]
pub struct RuntimeConfig {
    pub api_url: String,
    pub token: String,
    pub tenant_id: String,
}

/// The environment's value when set, else the file's.
pub open spec fn preferred(env: Option<String>, file: Option<String>) -> Option<String> {
    match env {
        Some(v) => Some(v),
        None => file,
    }
}

/// Names joined by `", "`.
pub open spec fn listed(names: Seq<Seq<char>>) -> Seq<char>
    decreases names.len(),
{
    if names.len() == 0 {
        Seq::empty()
    } else if names.len() == 1 {
        names[0]
    } else {
        listed(names.drop_last()) + ", "@ + names.last()
    }
}

/// The settings missing, in the order api_url, token, tenant_id.
pub open spec fn missing_settings(api_url: bool, token: bool, tenant_id: bool) -> Seq<Seq<char>> {
    (if api_url { Seq::empty() } else { seq!["api_url (TASK_API_URL)"@] }) + (if token {
        Seq::empty()
    } else {
        seq!["token (TASK_TOKEN)"@]
    }) + (if tenant_id { Seq::empty() } else { seq!["tenant_id (TASK_TENANT)"@] })
}

fn join_names(names: &Vec<&'static str>) -> (r: String)
    ensures
        r@ == listed(names@.map_values(|n: &'static str| n@)),
{
    proof {
        reveal_strlit(", ");
    }
    let mut out = String::new();
    let mut i: usize = 0;
    while i < names.len()
        invariant
            i <= names.len(),
            out@ == listed(names@.take(i as int).map_values(|n: &'static str| n@)),
        decreases names.len() - i,
    {
        proof {
            assert(names@.take(i + 1).map_values(|n: &'static str| n@).drop_last() =~= names@.take(
                i as int,
            ).map_values(|n: &'static str| n@));
        }
        if i == 0 {
            out = String::from_str(names[i]);
            proof {
                assert(names@.take(1).map_values(|n: &'static str| n@) =~= seq![names@[0]@]);
            }
        } else {
            out = out.concat(", ").concat(names[i]);
        }
        i += 1;
    }
    proof {
        assert(names@.take(names.len() as int) =~= names@);
    }
    out
}

/// The settings to call the API with: each taken from the environment when
/// set there, else from the file; the API URL without trailing slashes (so
/// that joined paths do not start with `//`). When any is missing, a
/// validation error (exit code 2) names every missing one and the file.
pub fn resolve_runtime_with(
    store: &ConfigStore,
    file: TaskConfig,
    env_api_url: Option<String>,
    env_token: Option<String>,
    env_tenant: Option<String>,
) -> (r: Result<RuntimeConfig, CliError>)
    ensures
        ({
            let api_url = preferred(env_api_url, file.api_url);
            let token = preferred(env_token, file.token);
            let tenant_id = preferred(env_tenant, file.tenant_id);
            if api_url is Some && token is Some && tenant_id is Some {
                r matches Ok(c) && c.api_url@ == drop_trailing(api_url->0@, Strip::Slash) && c.token
                    == token->0 && c.tenant_id == tenant_id->0
            } else {
                r matches Err(e) && e.exit_code == 2 && e.message@ == "Missing required configuration: "@
                    + listed(missing_settings(api_url is Some, token is Some, tenant_id is Some))
                    + ". Set env vars or "@ + path_join(store.dir_view(), "config.yaml"@) + "."@
            }
        }),
{
    let api_url = match env_api_url {
        Some(v) => Some(v),
        None => file.api_url,
    };
    let token = match env_token {
        Some(v) => Some(v),
        None => file.token,
    };
    let tenant_id = match env_tenant {
        Some(v) => Some(v),
        None => file.tenant_id,
    };
    match (api_url, token, tenant_id) {
        (Some(a), Some(t), Some(n)) => {
            let trimmed_url = trim_end(a.as_str(), Strip::Slash).to_owned();
            Ok(RuntimeConfig { api_url: trimmed_url, token: t, tenant_id: n })
        },
        (a, t, n) => {
            proof {
                reveal_strlit("api_url (TASK_API_URL)");
                reveal_strlit("token (TASK_TOKEN)");
                reveal_strlit("tenant_id (TASK_TENANT)");
                reveal_strlit("Missing required configuration: ");
                reveal_strlit(". Set env vars or ");
                reveal_strlit(".");
            }
            let mut missing: Vec<&'static str> = Vec::new();
            if a.is_none() {
                missing.push("api_url (TASK_API_URL)");
            }
            if t.is_none() {
                missing.push("token (TASK_TOKEN)");
            }
            if n.is_none() {
                missing.push("tenant_id (TASK_TENANT)");
            }
            assert(missing@.map_values(|s: &'static str| s@) =~= missing_settings(
                a is Some,
                t is Some,
                n is Some,
            ));
            let names = join_names(&missing);
            let path = store.path();
            let message = String::from_str("Missing required configuration: ").concat(names.as_str()).concat(
                ". Set env vars or ",
            ).concat(path.as_str()).concat(".");
            Err(CliError::validation(message))
        },
    }
}

/// A body read from a file: only the trailing line breaks are dropped (an
/// editor's final newline); leading blanks and indentation mean something
/// in Markdown and stay.
pub open spec fn body_text(raw: Seq<char>) -> Seq<char> {
    drop_trailing(raw, Strip::Newline)
}

/// Reading a body keeps all but the line breaks at its end: the body is a
/// prefix of the text read, only `\n` and `\r` follow it, and it does not end
/// with either. So leading blanks, indentation and inner blank lines stay.
pub proof fn lemma_body_keeps_all_but_trailing_breaks(raw: Seq<char>)
    ensures
        body_text(raw).len() <= raw.len(),
        raw.subrange(0, body_text(raw).len() as int) == body_text(raw),
        forall|k: int| body_text(raw).len() <= k < raw.len() ==> raw[k] == '\n' || raw[k] == '\r',
        body_text(raw).len() > 0 ==> body_text(raw).last() != '\n' && body_text(raw).last() != '\r',
    decreases raw.len(),
{
    if raw.len() > 0 && (raw.last() == '\n' || raw.last() == '\r') {
        lemma_body_keeps_all_but_trailing_breaks(raw.drop_last());
        assert(body_text(raw) == body_text(raw.drop_last()));
        assert(raw.drop_last().subrange(0, body_text(raw).len() as int) =~= raw.subrange(
            0,
            body_text(raw).len() as int,
        ));
        assert forall|k: int| body_text(raw).len() <= k < raw.len() implies raw[k] == '\n' || raw[k] == '\r' by {
            if k < raw.len() - 1 {
                assert(raw.drop_last()[k] == raw[k]);
            }
        }
    } else {
        assert(raw.subrange(0, raw.len() as int) =~= raw);
    }
}

/// The body read from `path` (`-` for standard input), given what reading it
/// gave: its text, or the error's text, which becomes the message.
pub fn read_body_from_file(path: &str, what: &str, read: Result<String, String>) -> (r: Result<String, CliError>)
    ensures
        match read {
            Ok(raw) => r matches Ok(b) && b@ == body_text(raw@),
            Err(e) => r matches Err(x) && x.exit_code == 1 && x.message@ == "Cannot read the "@ + what@ + (if path@
                == "-"@ {
                " from stdin"@
            } else {
                " from "@ + path@
            }) + ": "@ + e@,
        },
{
    match read {
        Ok(raw) => Ok(trim_end(raw.as_str(), Strip::Newline).to_owned()),
        Err(e) => {
            proof {
                reveal_strlit("Cannot read the ");
                reveal_strlit(" from stdin");
                reveal_strlit(" from ");
                reveal_strlit(": ");
                reveal_strlit("-");
            }
            let source = if same_text(path, "-") {
                String::from_str(" from stdin")
            } else {
                String::from_str(" from ").concat(path)
            };
            let message = String::from_str("Cannot read the ").concat(what).concat(source.as_str()).concat(
                ": ",
            ).concat(e.as_str());
            Err(CliError::new(message))
        },
    }
}

/// Resolves a body given as `--x` or as `--x-file`. An inline value wins, even
/// an empty one (emptying a body is a request too); else the file is read
/// (`file` pairs its path with what reading it gave); else there is no body.
pub fn resolve_body(inline: Option<String>, file: Option<(String, Result<String, String>)>, what: &str) -> (r:
    Result<Option<String>, CliError>)
    ensures
        match inline {
            Some(text) => r == Ok::<Option<String>, CliError>(Some(text)),
            None => match file {
                None => r == Ok::<Option<String>, CliError>(None),
                Some((_, Ok(raw))) => r matches Ok(Some(b)) && b@ == body_text(raw@),
                Some((path, Err(e))) => r matches Err(x) && x.exit_code == 1 && x.message@ == "Cannot read the "@
                    + what@ + (if path@ == "-"@ {
                    " from stdin"@
                } else {
                    " from "@ + path@
                }) + ": "@ + e@,
            },
        },
{
    if let Some(text) = inline {
        return Ok(Some(text));
    }
    match file {
        Some((path, read)) => match read_body_from_file(path.as_str(), what, read) {
            Ok(b) => Ok(Some(b)),
            Err(e) => Err(e),
        },
        None => Ok(None),
    }
}

/// The token given as an argument, trimmed; none when absent or blank (then it
/// is read from standard input).
pub fn token_from_argument(arg: Option<String>) -> (r: Option<String>)
    ensures
        match arg {
            Some(v) => if trimmed(v@).len() > 0 {
                r matches Some(t) && t@ == trimmed(v@)
            } else {
                r is None
            },
            None => r is None,
        },
{
    match arg {
        Some(v) => {
            let t = trim(v.as_str());
            if t.is_empty() {
                None
            } else {
                Some(t.to_owned())
            }
        },
        None => None,
    }
}

/// The token read from standard input, trimmed; an empty one is refused.
pub fn accept_token(raw: &str) -> (r: Result<String, CliError>)
    ensures
        if trimmed(raw@).len() > 0 {
            r matches Ok(t) && t@ == trimmed(raw@)
        } else {
            r matches Err(e) && e.exit_code == 1 && e.message@ == "Token is required"@
        },
{
    let t = trim(raw);
    if t.is_empty() {
        proof {
            reveal_strlit("Token is required");
        }
        Err(CliError::new(String::from_str("Token is required")))
    } else {
        Ok(t.to_owned())
    }
}


/// The text folded to lower case over ASCII letters (`str::to_ascii_lowercase`).
pub open spec fn ascii_lowered(s: Seq<char>) -> Seq<char> {
    s.map_values(|c: char| crate::text::ascii_lower(c))
}

/// The message for an unknown priority.
pub open spec fn unknown_priority_message(raw: Seq<char>) -> Seq<char> {
    "unknown priority: "@ + raw + " (expected one of critical_fire, critical, high, medium, low, trivial)"@
}

proof fn lemma_lowercase_value(raw: Seq<char>, p: TaskPriority)
    ensures
        same_ignoring_ascii_case(raw, priority_value(p)) <==> ascii_lowered(raw) == priority_value(p),
{
    let v = priority_value(p);
    assert(forall|k: int| 0 <= k < v.len() ==> crate::text::ascii_lower(#[trigger] v[k]) == v[k]) by {
        reveal_strlit("critical_fire");
        reveal_strlit("critical");
        reveal_strlit("high");
        reveal_strlit("medium");
        reveal_strlit("low");
        reveal_strlit("trivial");
    }
    if same_ignoring_ascii_case(raw, v) {
        assert(ascii_lowered(raw) =~= v);
    }
    if ascii_lowered(raw) == v {
        assert forall|k: int| 0 <= k < raw.len() implies crate::text::ascii_lower(raw[k]) == crate::text::ascii_lower(
            v[k],
        ) by {
            assert(ascii_lowered(raw)[k] == crate::text::ascii_lower(raw[k]));
        }
    }
}

/// Reads a priority as queries spell it, in any ASCII case; anything else is
/// refused before it is sent, with the accepted spellings (exit code 2).
pub fn parse_priority(raw: &str) -> (r: Result<TaskPriority, CliError>)
    ensures
        match r {
            Ok(p) => ascii_lowered(raw@) == priority_value(p),
            Err(e) => (forall|p: TaskPriority| ascii_lowered(raw@) != priority_value(p)) && e.exit_code == 2
                && e.message@ == unknown_priority_message(raw@),
        },
{
    let all = TaskPriority::values();
    let mut i: usize = 0;
    while i < all.len()
        invariant
            i <= all.len(),
            all@ == all_priorities(),
            forall|k: int| 0 <= k < i ==> ascii_lowered(raw@) != priority_value(#[trigger] all@[k]),
        decreases all.len() - i,
    {
        let p = all[i];
        proof {
            lemma_lowercase_value(raw@, p);
        }
        if eq_ignore_ascii_case(raw, p.to_value()) {
            return Ok(p);
        }
        i += 1;
    }
    proof {
        reveal_strlit("unknown priority: ");
        reveal_strlit(" (expected one of critical_fire, critical, high, medium, low, trivial)");
        assert forall|p: TaskPriority| ascii_lowered(raw@) != priority_value(p) by {
            let k: int = match p {
                TaskPriority::CriticalFire => 0,
                TaskPriority::Critical => 1,
                TaskPriority::High => 2,
                TaskPriority::Medium => 3,
                TaskPriority::Low => 4,
                TaskPriority::Trivial => 5,
            };
            assert(all@[k] == p);
        }
    }
    let message = String::from_str("unknown priority: ").concat(raw).concat(
        " (expected one of critical_fire, critical, high, medium, low, trivial)",
    );
    Err(CliError::validation(message))
}

/// The fields `tasks update` may change; what is not given stays as it is.
#[derive(Debug, Clone, PartialEq, Eq)]
pub struct UpdateFields {
    pub title: Option<String>,
    pub status_id: Option<u128>,
    pub priority: Option<TaskPriority>,
}

/// The body of a task update. An absent field is left as it is; a `clear_*`
/// flag empties its field, which only an explicit request may do.
#[derive(Debug, Clone, PartialEq, Eq)]
pub struct UpdateTaskRequest {
    pub title: Option<String>,
    pub description: Option<String>,
    pub clear_description: bool,
    pub status_id: Option<u128>,
    pub priority: Option<TaskPriority>,
    pub parent_task_id: Option<u128>,
    pub clear_parent_task_id: bool,
    pub milestone_id: Option<u128>,
    pub clear_milestone_id: bool,
    pub sprint_id: Option<u128>,
    pub clear_sprint_id: bool,
    pub clear_soft_deadline: bool,
    pub clear_hard_deadline: bool,
    pub clear_estimated_minutes: bool,
    pub is_archived: Option<bool>,
    pub label_ids: Option<Vec<u128>>,
}

/// The update that changes exactly the given fields and clears nothing.
pub open spec fn changes_only(
    title: Option<String>,
    status_id: Option<u128>,
    priority: Option<TaskPriority>,
) -> UpdateTaskRequest {
    UpdateTaskRequest {
        title,
        description: None,
        clear_description: false,
        status_id,
        priority,
        parent_task_id: None,
        clear_parent_task_id: false,
        milestone_id: None,
        clear_milestone_id: false,
        sprint_id: None,
        clear_sprint_id: false,
        clear_soft_deadline: false,
        clear_hard_deadline: false,
        clear_estimated_minutes: false,
        is_archived: None,
        label_ids: None,
    }
}

/// An update touches only the fields that were given; clearing a field takes
/// an explicit request, so every `clear_*` flag is off.
pub fn update_request(fields: UpdateFields) -> (r: UpdateTaskRequest)
    ensures
        r == changes_only(fields.title, fields.status_id, fields.priority),
{
    UpdateTaskRequest {
        title: fields.title,
        description: None,
        clear_description: false,
        status_id: fields.status_id,
        priority: fields.priority,
        parent_task_id: None,
        clear_parent_task_id: false,
        milestone_id: None,
        clear_milestone_id: false,
        sprint_id: None,
        clear_sprint_id: false,
        clear_soft_deadline: false,
        clear_hard_deadline: false,
        clear_estimated_minutes: false,
        is_archived: None,
        label_ids: None,
    }
}

/// The update that only moves a task to the done status `status_id`
/// (shared by `tasks complete` and `my complete`).
pub fn done_request(status_id: u128) -> (r: UpdateTaskRequest)
    ensures
        r == changes_only(None, Some(status_id), None),
{
    update_request(UpdateFields { title: None, status_id: Some(status_id), priority: None })
}

/// The path segments of a project's tasks.
pub open spec fn spec_tasks_path(tenant_id: Seq<char>, project_id: u128) -> Seq<Seq<char>> {
    seq!["v1"@, "tenants"@, tenant_id, "projects"@, uuid_hyphenated(project_id), "tasks"@]
}

/// The path segments of a project's sprints.
pub open spec fn spec_sprints_path(tenant_id: Seq<char>, project_id: u128) -> Seq<Seq<char>> {
    seq!["v1"@, "tenants"@, tenant_id, "projects"@, uuid_hyphenated(project_id), "sprints"@]
}

/// The texts of a list of strings.
pub open spec fn texts(v: Seq<String>) -> Seq<Seq<char>> {
    v.map_values(|s: String| s@)
}

fn project_path(tenant_id: &str, project_id: u128, last: &'static str) -> (r: Vec<String>)
    ensures
        texts(r@) == seq!["v1"@, "tenants"@, tenant_id@, "projects"@, uuid_hyphenated(project_id), last@],
{
    let mut r: Vec<String> = Vec::new();
    r.push(String::from_str("v1"));
    r.push(String::from_str("tenants"));
    r.push(tenant_id.to_owned());
    r.push(String::from_str("projects"));
    r.push(uuid_text(project_id));
    r.push(String::from_str(last));
    assert(texts(r@) =~= seq!["v1"@, "tenants"@, tenant_id@, "projects"@, uuid_hyphenated(project_id), last@]);
    r
}

/// `v1/tenants/<tenant>/projects/<project>/tasks`, as segments.
pub fn tasks_path(tenant_id: &str, project_id: u128) -> (r: Vec<String>)
    ensures
        texts(r@) == spec_tasks_path(tenant_id@, project_id),
{
    proof {
        reveal_strlit("tasks");
    }
    project_path(tenant_id, project_id, "tasks")
}

/// The segments of one task: the tasks path and the task's id or key.
pub fn task_path(tenant_id: &str, project_id: u128, task_id: &str) -> (r: Vec<String>)
    ensures
        texts(r@) == spec_tasks_path(tenant_id@, project_id).push(task_id@),
{
    let mut segments = tasks_path(tenant_id, project_id);
    segments.push(task_id.to_owned());
    assert(texts(segments@) =~= spec_tasks_path(tenant_id@, project_id).push(task_id@));
    segments
}

/// `v1/tenants/<tenant>/projects/<project>/sprints`, as segments.
pub fn sprints_path(tenant_id: &str, project_id: u128) -> (r: Vec<String>)
    ensures
        texts(r@) == spec_sprints_path(tenant_id@, project_id),
{
    proof {
        reveal_strlit("sprints");
    }
    project_path(tenant_id, project_id, "sprints")
}

/// The segments of one sprint.
pub fn sprint_path(tenant_id: &str, project_id: u128, sprint_id: &str) -> (r: Vec<String>)
    ensures
        texts(r@) == spec_sprints_path(tenant_id@, project_id).push(sprint_id@),
{
    let mut segments = sprints_path(tenant_id, project_id);
    segments.push(sprint_id.to_owned());
    assert(texts(segments@) =~= spec_sprints_path(tenant_id@, project_id).push(sprint_id@));
    segments
}

/// The segments as the API client takes them.
pub fn borrow(segments: &[String]) -> (r: Vec<&str>)
    ensures
        r@.len() == segments@.len(),
        forall|k: int| 0 <= k < r@.len() ==> r@[k]@ == segments@[k]@,
{
    let mut out: Vec<&str> = Vec::new();
    let mut i: usize = 0;
    while i < segments.len()
        invariant
            i <= segments.len(),
            out@.len() == i,
            forall|k: int| 0 <= k < i ==> out@[k]@ == segments@[k]@,
        decreases segments.len() - i,
    {
        out.push(segments[i].as_str());
        i += 1;
    }
    out
}

/// A sprint, as far as looking it up by name reads it.
#[derive(Debug, Clone, PartialEq, Eq)]
pub struct SprintSummary {
    pub id: u128,
    pub name: String,
}

/// The id of the first sprint named `name` (ignoring ASCII case), or a
/// not-found error (exit code 5).
pub fn sprint_id_by_name(sprints: &[SprintSummary], name: &str) -> (r: Result<String, CliError>)
    ensures
        match r {
            Ok(id) => exists|k: int|
                0 <= k < sprints@.len() && same_ignoring_ascii_case(sprints@[k].name@, name@) && id@
                    == uuid_hyphenated(sprints@[k].id) && forall|j: int|
                    0 <= j < k ==> !same_ignoring_ascii_case(sprints@[j].name@, name@),
            Err(e) => (forall|k: int|
                0 <= k < sprints@.len() ==> !same_ignoring_ascii_case(sprints@[k].name@, name@))
                && e.exit_code == 5 && e.message@ == "Sprint not found: "@ + name@,
        },
{
    let mut i: usize = 0;
    while i < sprints.len()
        invariant
            i <= sprints.len(),
            forall|j: int| 0 <= j < i ==> !same_ignoring_ascii_case(sprints@[j].name@, name@),
        decreases sprints.len() - i,
    {
        if eq_ignore_ascii_case(sprints[i].name.as_str(), name) {
            return Ok(uuid_text(sprints[i].id));
        }
        i += 1;
    }
    proof {
        reveal_strlit("Sprint not found: ");
    }
    Err(CliError::not_found(String::from_str("Sprint not found: ").concat(name)))
}

} // verus!
