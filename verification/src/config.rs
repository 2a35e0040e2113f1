//! Server configuration and the on-disk layout derived from it.
use vstd::prelude::*;
use crate::text::concat2;

verus! {

broadcast use vstd::string::group_string_axioms;

/// The whole server configuration.
#[derive(Debug, Clone)]
pub struct Config {
    pub server: ServerConfig,
    pub database: DatabaseConfig,
    pub storage: StorageConfig,
    pub jwt: JwtConfig,
    pub ssh: SshConfig,
    pub cors: CorsConfig,
    pub upload: UploadConfig,
    pub apps: AppsConfig,
    pub runtime: RuntimeConfig,
    pub docker: DockerConfig,
    pub secrets: SecretsConfig,
}

#[derive(Debug, Clone)]
pub struct ServerConfig {
    pub host: String,
    pub port: u16,
}

#[derive(Debug, Clone)]
pub struct DatabaseConfig {
    pub path: String,
}

#[derive(Debug, Clone)]
pub struct StorageConfig {
    pub base_path: String,
}

#[derive(Debug, Clone)]
pub struct JwtConfig {
    pub secret: String,
    pub expires_in_hours: u64,
}

impl JwtConfig {
    /// The signing secret: the `JWT_SECRET` environment value when it is set,
    /// else the configured one.
    pub fn effective_secret(&self, env_secret: Option<String>) -> (s: String)
        ensures
            s@ == match env_secret {
                Some(e) => e@,
                None => self.secret@,
            },
    {
        match env_secret {
            Some(e) => e,
            None => self.secret.clone(),
        }
    }
}

#[derive(Debug, Clone)]
pub struct AppsConfig {
    pub port_range_start: u16,
    pub port_range_end: u16,
}

impl Default for AppsConfig {
    fn default() -> (c: Self)
        ensures
            c.port_range_start == 4000,
            c.port_range_end == 65535,
    {
        AppsConfig { port_range_start: 4000, port_range_end: 65535 }
    }
}

#[derive(Debug, Clone)]
pub struct SshConfig {
    pub enabled: bool,
}

impl Default for SshConfig {
    fn default() -> (c: Self)
        ensures
            c.enabled,
    {
        SshConfig { enabled: true }
    }
}

#[derive(Debug, Clone)]
pub struct RuntimeConfig {
    pub mode: String,
}

impl Default for RuntimeConfig {
    fn default() -> (c: Self)
        ensures
            c.mode@ == "process"@,
    {
        RuntimeConfig { mode: "process".to_string() }
    }
}

#[derive(Debug, Clone)]
pub struct CorsConfig {
    pub allowed_origins: Vec<String>,
}

impl Default for CorsConfig {
    fn default() -> (c: Self)
        ensures
            c.allowed_origins@.len() == 1,
            c.allowed_origins@[0]@ == "*"@,
    {
        CorsConfig { allowed_origins: vec!["*".to_string()] }
    }
}

#[derive(Debug, Clone)]
pub struct UploadConfig {
    pub max_file_size: usize,
}

impl Default for UploadConfig {
    fn default() -> (c: Self)
        ensures
            c.max_file_size == 10 * 1024 * 1024,
    {
        UploadConfig { max_file_size: 10 * 1024 * 1024 }
    }
}

#[derive(Debug, Clone)]
pub struct DockerConfig {
    pub base_image: String,
    pub network: String,
    pub memory_limit: String,
    pub cpu_shares: i64,
    pub ssh_port_range_start: u16,
    pub ssh_port_range_end: u16,
}

impl Default for DockerConfig {
    fn default() -> (c: Self)
        ensures
            c.base_image@ == "gitpage-dev-base:latest"@,
            c.network@ == "bridge"@,
            c.memory_limit@ == "1g"@,
            c.cpu_shares == 512,
            c.ssh_port_range_start == 22001,
            c.ssh_port_range_end == 22999,
    {
        DockerConfig {
            base_image: "gitpage-dev-base:latest".to_string(),
            network: "bridge".to_string(),
            memory_limit: "1g".to_string(),
            cpu_shares: 512,
            ssh_port_range_start: 22001,
            ssh_port_range_end: 22999,
        }
    }
}

#[derive(Debug, Clone)]
pub struct SecretsConfig {
    pub encryption_key: String,
}

impl Default for SecretsConfig {
    fn default() -> (c: Self)
        ensures
            c.encryption_key@ == Seq::<char>::empty(),
    {
        SecretsConfig { encryption_key: String::new() }
    }
}

/// `{base}/repos/{user}/{repo}.git`
pub open spec fn repo_path_spec(base: Seq<char>, user: Seq<char>, repo: Seq<char>) -> Seq<char> {
    base + "/repos/"@ + user + "/"@ + repo + ".git"@
}

/// `{base}/repos/{user}`
pub open spec fn user_repos_path_spec(base: Seq<char>, user: Seq<char>) -> Seq<char> {
    base + "/repos/"@ + user
}

/// `{base}/repos/{user}/{repo}/pages`
pub open spec fn pages_dir_spec(base: Seq<char>, user: Seq<char>, repo: Seq<char>) -> Seq<char> {
    base + "/repos/"@ + user + "/"@ + repo + "/pages"@
}

/// `{base}/apps/{user}/{repo}`
pub open spec fn app_workspace_dir_spec(base: Seq<char>, user: Seq<char>, repo: Seq<char>) -> Seq<
    char,
> {
    base + "/apps/"@ + user + "/"@ + repo
}

/// `{base}/staging/{user}/{repo}`
pub open spec fn working_tree_path_spec(base: Seq<char>, user: Seq<char>, repo: Seq<char>) -> Seq<char> {
    base + "/staging/"@ + user + "/"@ + repo
}

/// `{base}/staging/{user}/{repo}`
pub open spec fn staging_path_spec(base: Seq<char>, user: Seq<char>, repo: Seq<char>) -> Seq<char> {
    base + "/staging/"@ + user + "/"@ + repo
}

/// Each repository of a user has a working tree of its own.
pub proof fn lemma_working_trees_are_per_repository(base: Seq<char>, user: Seq<char>, r1: Seq<char>, r2: Seq<char>)
    requires
        r1 != r2,
    ensures
        working_tree_path_spec(base, user, r1) != working_tree_path_spec(base, user, r2),
{
    let head = base + "/staging/"@ + user + "/"@;
    assert(working_tree_path_spec(base, user, r1) =~= head + r1);
    assert(working_tree_path_spec(base, user, r2) =~= head + r2);
    if head + r1 == head + r2 {
        assert((head + r1).skip(head.len() as int) =~= r1);
        assert((head + r2).skip(head.len() as int) =~= r2);
    }
}

/// `a + sep + b + tail`
fn join3(a: &str, sep: &str, b: &str, c: &str, d: &str) -> (s: String)
    ensures
        s@ == a@ + sep@ + b@ + c@ + d@,
{
    let mut s = a.to_owned();
    s.append(sep);
    s.append(b);
    s.append(c);
    s.append(d);
    s
}

impl Config {
    /// Where the bare repository of `username/repo` lives.
    pub fn repo_path(&self, username: &str, repo: &str) -> (p: String)
        ensures
            p@ == repo_path_spec(self.storage.base_path@, username@, repo@),
    {
        let mut p = join3(self.storage.base_path.as_str(), "/repos/", username, "/", repo);
        p.append(".git");
        p
    }

    /// The directory that holds all repositories of `username`.
    pub fn user_repos_path(&self, username: &str) -> (p: String)
        ensures
            p@ == user_repos_path_spec(self.storage.base_path@, username@),
    {
        let mut p = concat2(self.storage.base_path.as_str(), "/repos/");
        p.append(username);
        p
    }

    /// Where the published Pages site of `username/repo` is written.
    pub fn pages_dir(&self, username: &str, repo: &str) -> (p: String)
        ensures
            p@ == pages_dir_spec(self.storage.base_path@, username@, repo@),
    {
        let mut p = join3(self.storage.base_path.as_str(), "/repos/", username, "/", repo);
        p.append("/pages");
        p
    }

    /// The build workspace of the app of `username/repo`.
    pub fn app_workspace_dir(&self, username: &str, repo: &str) -> (p: String)
        ensures
            p@ == app_workspace_dir_spec(self.storage.base_path@, username@, repo@),
    {
        join3(self.storage.base_path.as_str(), "/apps/", username, "/", repo)
    }

    /// The working tree of `username/repo`: its own directory under `staging`.
    pub fn working_tree_path(&self, username: &str, repo: &str) -> (p: String)
        ensures
            p@ == working_tree_path_spec(self.storage.base_path@, username@, repo@),
    {
        join3(self.storage.base_path.as_str(), "/staging/", username, "/", repo)
    }

    /// The staging directory (file manager) of `username/repo`.
    pub fn staging_path(&self, username: &str, repo: &str) -> (p: String)
        ensures
            p@ == staging_path_spec(self.storage.base_path@, username@, repo@),
    {
        join3(self.storage.base_path.as_str(), "/staging/", username, "/", repo)
    }
}

} // verus!
