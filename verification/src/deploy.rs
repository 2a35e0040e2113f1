//! App hosting: the table of running apps, port allocation, and how a project
//! is built and started.
use vstd::prelude::*;
use crate::errors::AppError;
use crate::models::AppsConfig;
use crate::text::{
    chars_of, concat2, find_char, find_char_in, lemma_find_char, lines, second_piece, starts_with,
    starts_with_in, string_of_range, strip_cr, trim, trim_bounds, trim_char, trim_char_bounds,
};

verus! {

broadcast use vstd::string::group_string_axioms;

// ───────────────────────── process table ─────────────────────────

/// The state of a hosted app.
#[derive(Debug)]
pub enum AppStatus {
    Deploying,
    Running,
    Stopped,
    Error(String),
}

impl AppStatus {
    /// A copy of the status.
    pub fn copy(&self) -> (r: AppStatus)
        ensures
            r == *self,
    {
        match self {
            AppStatus::Deploying => AppStatus::Deploying,
            AppStatus::Running => AppStatus::Running,
            AppStatus::Stopped => AppStatus::Stopped,
            AppStatus::Error(m) => AppStatus::Error(m.clone()),
        }
    }

    /// Running or being deployed: a process may be alive.
    pub fn is_active(&self) -> (b: bool)
        ensures
            b == (*self is Running || *self is Deploying),
    {
        match self {
            AppStatus::Running | AppStatus::Deploying => true,
            _ => false,
        }
    }

    pub fn is_running(&self) -> (b: bool)
        ensures
            b == (*self is Running),
    {
        match self {
            AppStatus::Running => true,
            _ => false,
        }
    }
}

/// A hosted app process.
#[derive(Debug)]
pub struct AppProcess {
    pub repo_id: i64,
    pub port: u16,
    pub status: AppStatus,
    pub pid: u32,
}

impl AppProcess {
    /// A copy of the record.
    pub fn copy(&self) -> (r: AppProcess)
        ensures
            r == *self,
    {
        AppProcess { repo_id: self.repo_id, port: self.port, status: self.status.copy(), pid: self.pid }
    }
}

/// The apps known to the server, one per repository.
pub struct ProcessTable {
    procs: Vec<AppProcess>,
}

impl ProcessTable {
    /// The table as a map from repository id to process.
    pub closed spec fn view(&self) -> Map<i64, AppProcess> {
        Map::new(
            |id: i64| exists|i: int| 0 <= i < self.procs@.len() && self.procs@[i].repo_id == id,
            |id: i64|
                {
                    let i = choose|i: int| 0 <= i < self.procs@.len() && self.procs@[i].repo_id == id;
                    self.procs@[i]
                },
        )
    }

    /// Each repository appears at most once, under its own id.
    pub closed spec fn wf(&self) -> bool {
        forall|i: int, j: int|
            0 <= i < self.procs@.len() && 0 <= j < self.procs@.len() && i != j
                ==> self.procs@[i].repo_id != self.procs@[j].repo_id
    }

    /// The ports held by the known apps.
    pub open spec fn used_ports(&self) -> Set<u16> {
        Set::new(|p: u16| exists|id: i64| self@.contains_key(id) && self@[id].port == p)
    }

    proof fn lemma_view_at(&self, i: int)
        requires
            self.wf(),
            0 <= i < self.procs@.len(),
        ensures
            self@.contains_key(self.procs@[i].repo_id),
            self@[self.procs@[i].repo_id] == self.procs@[i],
    {
        let id = self.procs@[i].repo_id;
        assert(exists|k: int| 0 <= k < self.procs@.len() && self.procs@[k].repo_id == id);
        let k = choose|k: int| 0 <= k < self.procs@.len() && self.procs@[k].repo_id == id;
        assert(k == i);
    }

    proof fn lemma_map_entry_is_some_index(&self, id: i64)
        requires
            self.wf(),
            self@.contains_key(id),
        ensures
            exists|i: int|
                0 <= i < self.procs@.len() && self.procs@[i].repo_id == id && self@[id]
                    == self.procs@[i],
    {
        let i = choose|i: int| 0 <= i < self.procs@.len() && self.procs@[i].repo_id == id;
        self.lemma_view_at(i);
    }

    pub fn new() -> (t: ProcessTable)
        ensures
            t.wf(),
            t@ == Map::<i64, AppProcess>::empty(),
    {
        let t = ProcessTable { procs: Vec::new() };
        assert(t@ =~= Map::<i64, AppProcess>::empty());
        t
    }

    fn index_of(&self, repo_id: i64) -> (r: Option<usize>)
        requires
            self.wf(),
        ensures
            match r {
                Some(i) => i < self.procs@.len() && self.procs@[i as int].repo_id == repo_id,
                None => !self@.contains_key(repo_id),
            },
    {
        let mut i: usize = 0;
        while i < self.procs.len()
            invariant
                i <= self.procs@.len(),
                forall|j: int| 0 <= j < i ==> self.procs@[j].repo_id != repo_id,
            decreases self.procs.len() - i,
        {
            if self.procs[i].repo_id == repo_id {
                return Some(i);
            }
            i = i + 1;
        }
        None
    }

    /// Records `proc` as the app of its repository, replacing any earlier one.
    pub fn register(&mut self, proc: AppProcess)
        requires
            old(self).wf(),
        ensures
            final(self).wf(),
            final(self)@ == old(self)@.insert(proc.repo_id, proc),
    {
        let ghost id = proc.repo_id;
        let ghost p = proc;
        let ghost o = self.procs@;
        match self.index_of(proc.repo_id) {
            Some(i) => {
                self.procs.set(i, proc);
                proof {
                    let n = self.procs@;
                    assert(n == o.update(i as int, p));
                    assert forall|id2: i64| #[trigger] self@.contains_key(id2) == old(self)@.insert(id, p).contains_key(id2) by {
                        if id2 == id {
                            assert(n[i as int].repo_id == id);
                        } else {
                            if old(self)@.contains_key(id2) {
                                let k = choose|k: int| 0 <= k < o.len() && o[k].repo_id == id2;
                                assert(k != i);
                                assert(n[k].repo_id == id2);
                            }
                            if self@.contains_key(id2) {
                                let k = choose|k: int| 0 <= k < n.len() && n[k].repo_id == id2;
                                assert(k != i);
                                assert(o[k].repo_id == id2);
                            }
                        }
                    }
                }
            },
            None => {
                self.procs.push(proc);
                proof {
                    let n = self.procs@;
                    assert(n == o.push(p));
                    assert forall|id2: i64| #[trigger] self@.contains_key(id2) == old(self)@.insert(id, p).contains_key(id2) by {
                        if id2 == id {
                            assert(n[o.len() as int].repo_id == id);
                        } else {
                            if old(self)@.contains_key(id2) {
                                let k = choose|k: int| 0 <= k < o.len() && o[k].repo_id == id2;
                                assert(n[k].repo_id == id2);
                            }
                            if self@.contains_key(id2) {
                                let k = choose|k: int| 0 <= k < n.len() && n[k].repo_id == id2;
                                assert(k != o.len());
                                assert(o[k].repo_id == id2);
                            }
                        }
                    }
                }
            },
        }
        proof {
            assert forall|id2: i64| #[trigger] self@.contains_key(id2) implies self@[id2] == old(self)@.insert(id, p)[id2] by {
                let k = choose|k: int| 0 <= k < self.procs@.len() && self.procs@[k].repo_id == id2;
                self.lemma_view_at(k);
                if id2 != id {
                    old(self).lemma_view_at(k);
                }
            }
            assert(self@ =~= old(self)@.insert(id, p));
        }
    }

    /// Forgets the app of `repo_id`.
    pub fn unregister(&mut self, repo_id: i64)
        requires
            old(self).wf(),
        ensures
            final(self).wf(),
            final(self)@ == old(self)@.remove(repo_id),
    {
        match self.index_of(repo_id) {
            Some(i) => {
                let _ = self.procs.swap_remove(i);
                proof {
                    let o = old(self).procs@;
                    let n = self.procs@;
                    assert(n == o.update(i as int, o.last()).drop_last());
                    assert forall|a: int| 0 <= a < n.len() implies (#[trigger] n[a]) == (if a == i {
                        o[o.len() - 1]
                    } else {
                        o[a]
                    }) by {}
                    assert forall|id2: i64| #[trigger] self@.contains_key(id2) == old(self)@.remove(repo_id).contains_key(id2) by {
                        if old(self)@.remove(repo_id).contains_key(id2) {
                            old(self).lemma_map_entry_is_some_index(id2);
                            let k = choose|k: int| 0 <= k < o.len() && o[k].repo_id == id2 && old(self)@[id2] == o[k];
                            if k == o.len() - 1 {
                                if i < o.len() - 1 {
                                    assert(n[i as int].repo_id == id2);
                                }
                            } else {
                                assert(k != i);
                                assert(n[k].repo_id == id2);
                            }
                        }
                        if self@.contains_key(id2) {
                            let k = choose|k: int| 0 <= k < n.len() && n[k].repo_id == id2;
                            if k == i {
                                assert(o[o.len() - 1].repo_id == id2);
                            } else {
                                assert(o[k].repo_id == id2);
                            }
                        }
                    }
                    assert forall|id2: i64| #[trigger] self@.contains_key(id2) implies self@[id2] == old(self)@.remove(repo_id)[id2] by {
                        let k = choose|k: int| 0 <= k < n.len() && n[k].repo_id == id2;
                        self.lemma_view_at(k);
                        if k == i {
                            old(self).lemma_view_at(o.len() - 1);
                        } else {
                            old(self).lemma_view_at(k);
                        }
                    }
                    assert(self@ =~= old(self)@.remove(repo_id));
                }
            },
            None => {
                assert(self@ =~= old(self)@.remove(repo_id));
            },
        }
    }

    /// The app of `repo_id`, if one is known.
    pub fn get(&self, repo_id: i64) -> (r: Option<AppProcess>)
        requires
            self.wf(),
        ensures
            r == if self@.contains_key(repo_id) {
                Some(self@[repo_id])
            } else {
                None
            },
    {
        match self.index_of(repo_id) {
            Some(i) => {
                proof {
                    self.lemma_view_at(i as int);
                }
                Some(self.procs[i].copy())
            },
            None => None,
        }
    }

    /// Sets the status of a known app; unknown ids are ignored.
    pub fn update_status(&mut self, repo_id: i64, status: AppStatus)
        requires
            old(self).wf(),
        ensures
            final(self).wf(),
            final(self)@ == if old(self)@.contains_key(repo_id) {
                old(self)@.insert(
                    repo_id,
                    AppProcess { status: status, ..old(self)@[repo_id] },
                )
            } else {
                old(self)@
            },
    {
        match self.index_of(repo_id) {
            Some(i) => {
                proof {
                    old(self).lemma_view_at(i as int);
                }
                let p = &self.procs[i];
                let np = AppProcess { repo_id: p.repo_id, port: p.port, status, pid: p.pid };
                self.register(np);
            },
            None => {},
        }
    }

    /// All known apps.
    pub fn list(&self) -> (v: Vec<AppProcess>)
        requires
            self.wf(),
        ensures
            v@.len() == self@.len(),
            forall|i: int| 0 <= i < v@.len() ==> self@.contains_key(#[trigger] v@[i].repo_id) && self@[v@[i].repo_id] == v@[i],
            forall|id: i64| #[trigger] self@.contains_key(id) ==> exists|i: int| 0 <= i < v@.len() && v@[i].repo_id == id,
    {
        let mut v: Vec<AppProcess> = Vec::new();
        let mut i: usize = 0;
        while i < self.procs.len()
            invariant
                self.wf(),
                i <= self.procs@.len(),
                v@.len() == i,
                forall|k: int| 0 <= k < i ==> v@[k] == self.procs@[k],
            decreases self.procs.len() - i,
        {
            v.push(self.procs[i].copy());
            i = i + 1;
        }
        proof {
            assert(v@ =~= self.procs@);
            assert forall|k: int| 0 <= k < v@.len() implies self@.contains_key(#[trigger] v@[k].repo_id) && self@[v@[k].repo_id] == v@[k] by {
                self.lemma_view_at(k);
            }
            assert forall|id: i64| #[trigger] self@.contains_key(id) implies exists|k: int| 0 <= k < v@.len() && v@[k].repo_id == id by {
                self.lemma_map_entry_is_some_index(id);
            }
            self.lemma_len();
        }
        v
    }

    proof fn lemma_len(&self)
        requires
            self.wf(),
        ensures
            self@.len() == self.procs@.len(),
    {
        let ids = self.procs@.map_values(|p: AppProcess| p.repo_id);
        assert forall|x: i64| self@.dom().contains(x) == ids.to_set().contains(x) by {
            if self@.dom().contains(x) {
                let k = choose|k: int| 0 <= k < self.procs@.len() && self.procs@[k].repo_id == x;
                assert(ids[k] == x);
                assert(ids.contains(x));
            }
            if ids.to_set().contains(x) {
                assert(ids.contains(x));
                let k = choose|k: int| 0 <= k < ids.len() && ids[k] == x;
                assert(self.procs@[k].repo_id == x);
            }
        }
        assert(self@.dom() =~= ids.to_set());
        assert forall|i: int, j: int| 0 <= i < j < ids.len() implies ids[i] != ids[j] by {}
        ids.unique_seq_to_set();
    }

    /// Whether a known app holds `port`.
    fn port_in_use(&self, port: u16) -> (b: bool)
        requires
            self.wf(),
        ensures
            b == self.used_ports().contains(port),
    {
        let mut i: usize = 0;
        while i < self.procs.len()
            invariant
                self.wf(),
                i <= self.procs@.len(),
                forall|k: int| 0 <= k < i ==> self.procs@[k].port != port,
            decreases self.procs.len() - i,
        {
            if self.procs[i].port == port {
                proof {
                    self.lemma_view_at(i as int);
                }
                return true;
            }
            i = i + 1;
        }
        proof {
            if self.used_ports().contains(port) {
                let id = choose|id: i64| self@.contains_key(id) && self@[id].port == port;
                self.lemma_map_entry_is_some_index(id);
            }
        }
        false
    }

    /// The lowest port of `start..end` (end excluded) that no known app holds.
    pub fn allocate_port(&self, start: u16, end: u16) -> (r: Result<u16, AppError>)
        requires
            self.wf(),
            start <= end,
        ensures
            match r {
                Ok(p) => start <= p < end && !self.used_ports().contains(p) && forall|q: u16|
                    start <= q < p ==> self.used_ports().contains(q),
                Err(e) => e is Internal && e.msg() == "No available ports"@ && forall|q: u16|
                    start <= q < end ==> self.used_ports().contains(q),
            },
    {
        let mut port = start;
        let mut n: u16 = 0;
        while n < end - start
            invariant
                self.wf(),
                start <= end,
                n <= end - start,
                port == start + n,
                forall|q: u16| start <= q < port ==> self.used_ports().contains(q),
            decreases end - start - n,
        {
            if !self.port_in_use(port) {
                return Ok(port);
            }
            port = port + 1;
            n = n + 1;
        }
        Err(AppError::Internal("No available ports".to_string()))
    }
}

/// What `get` answers after `register`: the process just registered.
pub proof fn lemma_get_after_register(t: Map<i64, AppProcess>, p: AppProcess)
    ensures
        t.insert(p.repo_id, p).contains_key(p.repo_id),
        t.insert(p.repo_id, p)[p.repo_id] == p,
{
}

/// Unregistering an app that was just registered, for a repository the table
/// did not know, gives back the table as it was.
pub proof fn lemma_unregister_undoes_register(t: Map<i64, AppProcess>, p: AppProcess)
    requires
        !t.contains_key(p.repo_id),
    ensures
        t.insert(p.repo_id, p).remove(p.repo_id) == t,
{
    assert(t.insert(p.repo_id, p).remove(p.repo_id) =~= t);
}

/// A port handed out by `allocate_port` is held by none of the known apps.
pub proof fn lemma_allocated_port_is_free(t: &ProcessTable, start: u16, end: u16, p: u16)
    requires
        t.wf(),
        start <= p < end,
        !t.used_ports().contains(p),
    ensures
        forall|id: i64| #[trigger] t@.contains_key(id) ==> t@[id].port != p,
{
}

// ───────────────────────── projects ─────────────────────────

/// The kinds of project that can be hosted.
#[derive(Debug, Clone, Copy, PartialEq, Eq)]
pub enum ProjectType {
    NodeJs,
    Rust,
}

/// A `package.json` makes a Node.js project, else a `Cargo.toml` a Rust one.
pub fn detect_project_type(has_package_json: bool, has_cargo_toml: bool) -> (r: Result<
    ProjectType,
    AppError,
>)
    ensures
        has_package_json ==> r == Ok::<ProjectType, AppError>(ProjectType::NodeJs),
        !has_package_json && has_cargo_toml ==> r == Ok::<ProjectType, AppError>(ProjectType::Rust),
        !has_package_json && !has_cargo_toml ==> (r matches Err(e) && e is BadRequest && e.msg()
            == "Unsupported project type. Only Node.js (package.json) and Rust (Cargo.toml) are supported."@),
{
    if has_package_json {
        return Ok(ProjectType::NodeJs);
    }
    if has_cargo_toml {
        return Ok(ProjectType::Rust);
    }
    Err(
        AppError::BadRequest(
            "Unsupported project type. Only Node.js (package.json) and Rust (Cargo.toml) are supported.".to_string(),
        ),
    )
}

/// The first line whose trimmed text starts with `name`.
pub open spec fn first_name_line(ls: Seq<Seq<char>>) -> Option<Seq<char>>
    decreases ls.len(),
{
    if ls.len() == 0 {
        None
    } else if starts_with(trim(ls[0]), "name"@) {
        Some(ls[0])
    } else {
        first_name_line(ls.drop_first())
    }
}

/// The package name in a `Cargo.toml`: the value after the `=` of the first
/// line that starts with `name`, quotes and spaces removed; `app` when there is none.
pub open spec fn cargo_package_name(content: Seq<char>) -> Seq<char> {
    match first_name_line(lines(content)) {
        Some(l) => name_value_spec(l),
        None => "app"@,
    }
}

/// The value of a `name = "..."` line: the text after its first `=` (up to a
/// second one), trimmed, stripped of quotes, trimmed again; `app` when the line
/// has no `=`.
pub open spec fn name_value_spec(line: Seq<char>) -> Seq<char> {
    match second_piece(line, '=') {
        Some(v) => trim(trim_char(trim(v), '"')),
        None => "app"@,
    }
}

/// The package name taken from the line `v[lo..hi]`.
fn name_value(v: &Vec<char>, lo: usize, hi: usize) -> (n: String)
    requires
        lo <= hi <= v.len(),
    ensures
        n@ == name_value_spec(v@.subrange(lo as int, hi as int)),
{
    let ghost line = v@.subrange(lo as int, hi as int);
    match find_char_in(v, lo, hi, '=') {
        None => "app".to_string(),
        Some(i) => {
            let p0 = lo + i + 1;
            let ghost rest = line.skip(i + 1);
            proof {
                lemma_find_char(line, '=');
                assert(rest =~= v@.subrange(p0 as int, hi as int));
            }
            let p1 = match find_char_in(v, p0, hi, '=') {
                Some(j) => {
                    proof {
                        lemma_find_char(rest, '=');
                        assert(rest.take(j as int) =~= v@.subrange(p0 as int, p0 + j));
                    }
                    p0 + j
                },
                None => p0 + (hi - p0),
            };
            let (c0, c1) = trim_bounds(v, p0, p1);
            let (d0, d1) = trim_char_bounds(v, c0, c1, '"');
            let (e0, e1) = trim_bounds(v, d0, d1);
            string_of_range(v, e0, e1)
        },
    }
}

/// The next line of `v[pos..len]`: where it ends (without its line ending) and
/// where the following one starts.
fn next_line(v: &Vec<char>, pos: usize, len: usize) -> (r: (usize, usize))
    requires
        pos < len == v.len(),
    ensures
        pos <= r.0 <= r.1 <= len,
        pos < r.1,
        lines(v@.subrange(pos as int, len as int)) == seq![v@.subrange(pos as int, r.0 as int)]
            + lines(v@.subrange(r.1 as int, len as int)),
{
    let ghost s = v@.subrange(pos as int, len as int);
    proof {
        lemma_find_char(s, '\n');
    }
    match find_char_in(v, pos, len, '\n') {
        Some(i) => {
            let end = pos + i;
            let line_end = if end > pos && v[end - 1] == '\r' {
                end - 1
            } else {
                end
            };
            proof {
                assert(s.take(i as int) =~= v@.subrange(pos as int, end as int));
                assert(strip_cr(s.take(i as int)) =~= v@.subrange(pos as int, line_end as int));
                assert(s.skip(i + 1) =~= v@.subrange(end + 1, len as int));
            }
            (line_end, end + 1)
        },
        None => {
            proof {
                assert(v@.subrange(len as int, len as int) =~= Seq::<char>::empty());
                assert(lines(Seq::<char>::empty()) =~= Seq::<Seq<char>>::empty());
                assert(seq![s] + lines(Seq::<char>::empty()) =~= seq![s]);
            }
            (len, len)
        },
    }
}

/// The name of the package described by a `Cargo.toml`.
pub fn cargo_name(content: &str) -> (n: String)
    ensures
        n@ == cargo_package_name(content@),
{
    let v = chars_of(content);
    let name = chars_of("name");
    let len = v.len();
    let mut pos: usize = 0;
    assert(v@.subrange(0, len as int) =~= content@);
    while pos < len
        invariant
            pos <= len == v@.len(),
            v@ == content@,
            name@ == "name"@,
            first_name_line(lines(content@)) == first_name_line(lines(v@.subrange(pos as int, len as int))),
        decreases len - pos,
    {
        let (line_end, next) = next_line(&v, pos, len);
        let ghost line = v@.subrange(pos as int, line_end as int);
        let ghost rest = lines(v@.subrange(next as int, len as int));
        proof {
            assert((seq![line] + rest)[0] == line);
            assert((seq![line] + rest).drop_first() =~= rest);
        }
        let (a, b) = trim_bounds(&v, pos, line_end);
        if starts_with_in(&v, a, b, &name) {
            return name_value(&v, pos, line_end);
        }
        pos = next;
    }
    assert(v@.subrange(len as int, len as int) =~= Seq::<char>::empty());
    "app".to_string()
}

/// How to build: the configured command, else the project's usual one.
pub open spec fn build_command_spec(pt: ProjectType, config_build: Seq<char>) -> Seq<char> {
    if config_build.len() > 0 {
        config_build
    } else {
        match pt {
            ProjectType::NodeJs => "npm install"@,
            ProjectType::Rust => "cargo build --release"@,
        }
    }
}

/// How to start: the configured command, else `npm start`, or the release
/// binary named after the package (`app` when the `Cargo.toml` cannot be read).
pub open spec fn start_command_spec(pt: ProjectType, config_start: Seq<char>, cargo_toml: Option<Seq<char>>) -> Seq<char> {
    if config_start.len() > 0 {
        config_start
    } else {
        match pt {
            ProjectType::NodeJs => "npm start"@,
            ProjectType::Rust => match cargo_toml {
                Some(c) => "./target/release/"@ + cargo_package_name(c),
                None => "./target/release/app"@,
            },
        }
    }
}

/// A configured build or start command is used exactly as configured; only an
/// empty one is replaced, by the project type's default, which is never empty.
pub proof fn lemma_configured_commands_win(
    pt: ProjectType,
    config_build: Seq<char>,
    config_start: Seq<char>,
    cargo_toml: Option<Seq<char>>,
)
    ensures
        config_build.len() > 0 ==> build_command_spec(pt, config_build) == config_build,
        config_start.len() > 0 ==> start_command_spec(pt, config_start, cargo_toml) == config_start,
        config_build.len() == 0 ==> build_command_spec(pt, config_build) == (match pt {
            ProjectType::NodeJs => "npm install"@,
            ProjectType::Rust => "cargo build --release"@,
        }),
        build_command_spec(pt, config_build).len() > 0,
        start_command_spec(pt, config_start, cargo_toml).len() > 0,
{
    reveal_strlit("npm install");
    reveal_strlit("cargo build --release");
    reveal_strlit("npm start");
    reveal_strlit("./target/release/");
    reveal_strlit("./target/release/app");
}

/// The build and start commands of an app, given the content of its
/// `Cargo.toml` when it could be read.
pub fn resolve_commands(project_type: ProjectType, config: &AppsConfig, cargo_toml: Option<&str>) -> (r: (
    String,
    String,
))
    ensures
        r.0@ == build_command_spec(project_type, config.build_command@),
        r.1@ == start_command_spec(
            project_type,
            config.start_command@,
            match cargo_toml {
                Some(c) => Some(c@),
                None => None,
            },
        ),
{
    let build = if !config.build_command.as_str().is_empty() {
        config.build_command.clone()
    } else {
        match project_type {
            ProjectType::NodeJs => "npm install".to_string(),
            ProjectType::Rust => "cargo build --release".to_string(),
        }
    };
    let start = if !config.start_command.as_str().is_empty() {
        config.start_command.clone()
    } else {
        match project_type {
            ProjectType::NodeJs => "npm start".to_string(),
            ProjectType::Rust => match cargo_toml {
                Some(content) => {
                    let name = cargo_name(content);
                    concat2("./target/release/", name.as_str())
                },
                None => "./target/release/app".to_string(),
            },
        }
    };
    (build, start)
}

} // verus!
