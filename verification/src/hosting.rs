//! Decisions of app hosting around the processes themselves: what a deploy
//! runs, the environment an app starts with, which processes a stop kills,
//! and what happens to each enabled app when the server starts.
use vstd::prelude::*;
use crate::deploy::{
    build_command_spec, resolve_commands, start_command_spec, AppProcess, AppStatus, ProjectType,
};
use crate::errors::AppError;
use crate::models::{AppsConfig, EnabledAppWithOwner};
use crate::num::{decimal, u64_to_string};
use crate::text::{
    chars_of, find_char_in, lemma_find_char, lines, string_of_range, strip_cr, trim_start_char,
    trim_start_char_bound,
};

verus! {

broadcast use vstd::string::group_string_axioms;

// ───────────────────────── outside names ─────────────────────────

/// The members of the JSON object `doc` when all of them are strings, in key
/// order, as `serde_json` reads it into a map from string to string; `None`
/// when `doc` is not such an object.
pub uninterp spec fn json_string_object(doc: Seq<char>) -> Option<Seq<(Seq<char>, Seq<char>)>>;

pub open spec fn pairs_view(v: Seq<(String, String)>) -> Seq<(Seq<char>, Seq<char>)> {
    v.map_values(|x: (String, String)| (x.0@, x.1@))
}

/// `serde_json::from_str` into a `BTreeMap<String, String>`, then its entries.
/// The claim: the outcome is a function of the text, named `json_string_object`.
#[verifier::external_body]
fn json_string_pairs(doc: &str) -> (r: Option<Vec<(String, String)>>)
    ensures
        match r {
            Some(v) => json_string_object(doc@) == Some(pairs_view(v@)),
            None => json_string_object(doc@) == None::<Seq<(Seq<char>, Seq<char>)>>,
        },
{
    match serde_json::from_str::<std::collections::BTreeMap<String, String>>(doc) {
        Ok(m) => Some(m.into_iter().collect()),
        Err(_) => None,
    }
}

// ───────────────────────── deploy ─────────────────────────

/// What a deploy runs: a build command when there is one, then the start command.
pub struct DeployPlan {
    pub build: Option<String>,
    pub start: String,
}

/// The commands of a deploy; an empty build command means no build step.
pub fn deploy_plan(project_type: ProjectType, config: &AppsConfig, cargo_toml: Option<&str>) -> (p: DeployPlan)
    ensures
        match p.build {
            Some(b) => b@ == build_command_spec(project_type, config.build_command@) && b@.len() > 0,
            None => build_command_spec(project_type, config.build_command@).len() == 0,
        },
        p.start@ == start_command_spec(
            project_type,
            config.start_command@,
            match cargo_toml {
                Some(c) => Some(c@),
                None => None,
            },
        ),
{
    let (build, start) = resolve_commands(project_type, config, cargo_toml);
    if build.as_str().is_empty() {
        DeployPlan { build: None, start }
    } else {
        DeployPlan { build: Some(build), start }
    }
}

/// A source directory holds nothing but slashes and `.` components.
pub open spec fn only_dot_segments(p: Seq<char>) -> bool
    decreases p.len(),
{
    if p.len() == 0 {
        true
    } else if p[0] == '/' {
        only_dot_segments(p.drop_first())
    } else if p[0] == '.' && (p.len() == 1 || p[1] == '/') {
        only_dot_segments(p.drop_first())
    } else {
        false
    }
}

/// Whether the configured source directory names a subdirectory of the
/// checkout (whose contents then replace the checkout), rather than the
/// checkout itself.
pub fn source_is_subdir(source_dir: &str) -> (b: bool)
    ensures
        b == !only_dot_segments(trim_start_char(source_dir@, '/')),
{
    let v = chars_of(source_dir);
    assert(v@.subrange(0, v.len() as int) =~= source_dir@);
    let a = trim_start_char_bound(&v, 0, v.len(), '/');
    let mut i = a;
    while i < v.len()
        invariant
            a <= i <= v.len(),
            only_dot_segments(trim_start_char(source_dir@, '/')) == only_dot_segments(
                v@.subrange(i as int, v.len() as int),
            ),
        decreases v.len() - i,
    {
        let ghost s = v@.subrange(i as int, v.len() as int);
        assert(s[0] == v@[i as int]);
        assert(s.drop_first() =~= v@.subrange(i + 1, v.len() as int));
        if v[i] == '/' {
            i = i + 1;
        } else if v[i] == '.' && (i + 1 == v.len() || v[i + 1] == '/') {
            proof {
                if i + 1 < v.len() {
                    assert(s[1] == v@[i + 1]);
                }
            }
            i = i + 1;
        } else {
            proof {
                if i + 1 < v.len() {
                    assert(s[1] == v@[i + 1]);
                }
            }
            return true;
        }
    }
    false
}

/// The environment of an app started as a local process: `PORT`,
/// `HOST=127.0.0.1`, then the configured variables (none when the
/// configuration did not read as a JSON object of strings).
pub fn environment_with(port: u16, vars: Option<Vec<(String, String)>>) -> (env: Vec<(String, String)>)
    ensures
        pairs_view(env@) == seq![("PORT"@, decimal(port as nat)), ("HOST"@, "127.0.0.1"@)] + match vars {
            Some(v) => pairs_view(v@),
            None => Seq::empty(),
        },
{
    let mut env: Vec<(String, String)> = Vec::new();
    env.push((String::from_str("PORT"), u64_to_string(port as u64)));
    env.push((String::from_str("HOST"), String::from_str("127.0.0.1")));
    let ghost head = pairs_view(env@);
    match vars {
        Some(mut v) => {
            let ghost vv = pairs_view(v@);
            env.append(&mut v);
            assert(pairs_view(env@) =~= head + vv);
        },
        None => {
            assert(pairs_view(env@) =~= head + Seq::<(Seq<char>, Seq<char>)>::empty());
        },
    }
    env
}

/// The environment an app starts with: `PORT`, `HOST=127.0.0.1`, then the
/// configured variables when they are a JSON object of strings (applied in
/// this order, so a configured `PORT` or `HOST` wins).
pub fn app_environment(port: u16, env_vars: &str) -> (env: Vec<(String, String)>)
    ensures
        pairs_view(env@) == seq![("PORT"@, decimal(port as nat)), ("HOST"@, "127.0.0.1"@)] + match json_string_object(
            env_vars@,
        ) {
            Some(p) => p,
            None => Seq::empty(),
        },
{
    environment_with(port, json_string_pairs(env_vars))
}

/// The lines of a text (`str::lines`).
pub fn text_lines(text: &str) -> (ls: Vec<String>)
    ensures
        ls@.map_values(|s: String| s@) == lines(text@),
{
    let v = chars_of(text);
    let mut out: Vec<String> = Vec::new();
    let mut pos: usize = 0;
    assert(v@.skip(0) =~= v@);
    assert(out@.map_values(|s: String| s@) + lines(v@) =~= lines(v@));
    while pos < v.len()
        invariant
            pos <= v.len(),
            v@ == text@,
            lines(text@) == out@.map_values(|s: String| s@) + lines(v@.skip(pos as int)),
        decreases v.len() - pos,
    {
        let ghost s = v@.skip(pos as int);
        let ghost before = out@.map_values(|s: String| s@);
        assert(s =~= v@.subrange(pos as int, v.len() as int));
        proof {
            lemma_find_char(s, '\n');
        }
        match find_char_in(&v, pos, v.len(), '\n') {
            Some(i) => {
                let end = if i > 0 && v[pos + i - 1] == '\r' {
                    pos + i - 1
                } else {
                    pos + i
                };
                assert(strip_cr(s.take(i as int)) =~= v@.subrange(pos as int, end as int));
                out.push(string_of_range(&v, pos, end));
                pos = pos + i + 1;
                assert(s.skip(i + 1) =~= v@.skip(pos as int));
                assert(out@.map_values(|s: String| s@) =~= before.push(strip_cr(s.take(i as int))));
                assert(before + lines(s) =~= out@.map_values(|s: String| s@) + lines(v@.skip(pos as int)));
            },
            None => {
                out.push(string_of_range(&v, pos, v.len()));
                pos = v.len();
                assert(out@.map_values(|s: String| s@) =~= before.push(s));
                assert(v@.skip(pos as int) =~= Seq::<char>::empty());
                assert(before + lines(s) =~= out@.map_values(|s: String| s@) + lines(v@.skip(pos as int)));
            },
        }
    }
    assert(v@.skip(pos as int) =~= Seq::<char>::empty());
    assert(out@.map_values(|s: String| s@) + Seq::<Seq<char>>::empty() =~= out@.map_values(|s: String| s@));
    out
}

/// Where a hosted app is reached through the server.
pub fn app_url(owner: &str, repo: &str) -> (u: String)
    ensures
        u@ == "/app/"@ + owner@ + "/"@ + repo@,
{
    let mut u = String::from_str("/app/");
    u.append(owner);
    u.append("/");
    u.append(repo);
    u
}

/// The deploy log text of a failed deploy.
pub fn deploy_failure_log(e: &AppError) -> (s: String)
    ensures
        s@ == "Deploy failed: "@ + e.display_spec(),
{
    let mut s = String::from_str("Deploy failed: ");
    s.append(e.display_text().as_str());
    s
}

/// The error of a build command that failed, with what it printed.
pub fn build_failure(stderr: &str) -> (e: AppError)
    ensures
        e is Internal && e.msg() == "Build failed:\n"@ + stderr@,
{
    let mut m = String::from_str("Build failed:\n");
    m.append(stderr);
    AppError::Internal(m)
}

// ───────────────────────── restore on startup ─────────────────────────

/// What becomes of an enabled app when the server starts.
pub enum RestoreStep {
    /// No port was ever stored for it.
    SkipNoPort,
    /// Without containers its process did not survive; it waits for a deploy.
    SkipProcessMode,
    /// Ask its container whether it still runs on that port.
    CheckContainer { repo_id: i64, port: u16 },
}

/// The stored port, read as a `u16` (its low 16 bits).
pub open spec fn stored_port(config: AppsConfig) -> u16 {
    config.port as u16
}

pub open spec fn restore_step_spec(config: AppsConfig, docker_mode: bool) -> RestoreStep {
    if stored_port(config) == 0 {
        RestoreStep::SkipNoPort
    } else if !docker_mode {
        RestoreStep::SkipProcessMode
    } else {
        RestoreStep::CheckContainer { repo_id: config.repo_id, port: stored_port(config) }
    }
}

/// Decides the first step for an enabled app at startup.
pub fn restore_step(app: &EnabledAppWithOwner, docker_mode: bool) -> (s: RestoreStep)
    ensures
        s == restore_step_spec(app.config, docker_mode),
{
    let port: u16 = #[verifier::truncate] (app.config.port as u16);
    if port == 0 {
        RestoreStep::SkipNoPort
    } else if !docker_mode {
        RestoreStep::SkipProcessMode
    } else {
        RestoreStep::CheckContainer { repo_id: app.config.repo_id, port }
    }
}

/// What to do once the container answered.
pub enum RestoreAction {
    /// Still running: take it back into the table as it is.
    Register(AppProcess),
    /// Not running: deploy it again.
    Redeploy,
    /// The check itself failed: report and leave it.
    Report,
}

/// The action after a container check (`None` when the check failed).
pub fn after_container_check(repo_id: i64, port: u16, running: Option<bool>) -> (a: RestoreAction)
    ensures
        match running {
            Some(true) => a == RestoreAction::Register(
                AppProcess { repo_id, port, status: AppStatus::Running, pid: 0 },
            ),
            Some(false) => a == RestoreAction::Redeploy,
            None => a == RestoreAction::Report,
        },
{
    match running {
        Some(true) => RestoreAction::Register(AppProcess { repo_id, port, status: AppStatus::Running, pid: 0 }),
        Some(false) => RestoreAction::Redeploy,
        None => RestoreAction::Report,
    }
}

} // verus!
