//! Per-user development containers: the decisions and the text handed to Docker.
use vstd::prelude::*;
use crate::text::{
    chars_of, concat2, contains, contains_in, lowercase, starts_with, starts_with_in,
    string_of_range, str_eq, to_lowercase, vec_eq, trim, trim_bounds, trim_end_char, trim_end_char_bound,
    trim_start_char, trim_start_char_bound,
};
use crate::num::{decimal, parse_i64, parse_i64_spec, u64_to_string};

verus! {

broadcast use vstd::string::group_string_axioms;

// ───────────────────────── memory limits ─────────────────────────

/// The number part and the multiplier of a lower-cased, trimmed memory limit:
/// a trailing `g`, `m` or `k` (all copies of it) selects GiB, MiB or KiB.
pub open spec fn memory_limit_parts(t: Seq<char>) -> (Seq<char>, int) {
    if t.len() > 0 && t.last() == 'g' {
        (trim_end_char(t, 'g'), 1073741824)
    } else if t.len() > 0 && t.last() == 'm' {
        (trim_end_char(t, 'm'), 1048576)
    } else if t.len() > 0 && t.last() == 'k' {
        (trim_end_char(t, 'k'), 1024)
    } else {
        (t, 1)
    }
}

/// The number of bytes of a lower-cased, trimmed memory limit, computed in
/// unbounded integers; `None` when the number does not parse as `i64`.
pub open spec fn lowered_limit_value(t: Seq<char>) -> Option<int> {
    let (num, unit) = memory_limit_parts(t);
    match parse_i64_spec(num) {
        Some(v) => Some(v * unit),
        None => None,
    }
}

/// The number of bytes a memory limit such as `"1g"` or `" 512M "` stands for.
pub open spec fn memory_limit_value(s: Seq<char>) -> Option<int> {
    lowered_limit_value(lowercase(trim(s)))
}

/// The byte count of the limit fits in an `i64` (or the limit does not parse).
pub open spec fn memory_limit_fits(s: Seq<char>) -> bool {
    match memory_limit_value(s) {
        Some(x) => i64::MIN <= x <= i64::MAX,
        None => true,
    }
}

/// Lower-cased, trimmed text of `s`.
fn lowered_trimmed(s: &str) -> (l: String)
    ensures
        l@ == lowercase(trim(s@)),
{
    let raw = chars_of(s);
    let (a, b) = trim_bounds(&raw, 0, raw.len());
    assert(raw@.subrange(0, raw@.len() as int) =~= s@);
    let trimmed = string_of_range(&raw, a, b);
    to_lowercase(trimmed.as_str())
}

/// The bytes of an already lower-cased and trimmed memory limit: `Some(None)`
/// when the number does not parse, `None` when the byte count would not fit in
/// an `i64`.
pub fn lowered_limit_bytes(lowered: &str) -> (r: Option<Option<i64>>)
    ensures
        match r {
            None => lowered_limit_value(lowered@) matches Some(x) && !(i64::MIN <= x <= i64::MAX),
            Some(None) => lowered_limit_value(lowered@) == None::<int>,
            Some(Some(x)) => lowered_limit_value(lowered@) == Some(x as int),
        },
{
    let t = chars_of(lowered);
    assert(t@.subrange(0, t@.len() as int) =~= t@);
    let n = t.len();
    let (end, unit): (usize, i64) = if n > 0 && t[n - 1] == 'g' {
        (trim_end_char_bound(&t, 0, n, 'g'), 1073741824)
    } else if n > 0 && t[n - 1] == 'm' {
        (trim_end_char_bound(&t, 0, n, 'm'), 1048576)
    } else if n > 0 && t[n - 1] == 'k' {
        (trim_end_char_bound(&t, 0, n, 'k'), 1024)
    } else {
        (n, 1)
    };
    assert(memory_limit_parts(t@) == (t@.subrange(0, end as int), unit as int));
    match parse_i64(&t, 0, end) {
        Some(v) => match v.checked_mul(unit) {
            Some(x) => Some(Some(x)),
            None => None,
        },
        None => Some(None),
    }
}

/// Parses a memory limit (`"1g"`, `"512m"`, `"64k"`, `"1000"`) into bytes.
pub fn parse_memory_limit(s: &str) -> (r: Option<i64>)
    requires
        memory_limit_fits(s@),
    ensures
        match r {
            Some(x) => memory_limit_value(s@) == Some(x as int),
            None => memory_limit_value(s@) == None::<int>,
        },
{
    match lowered_limit_bytes(lowered_trimmed(s).as_str()) {
        Some(r) => r,
        None => None,
    }
}

/// `parse_memory_limit`, or `None` when the byte count would not fit in an `i64`.
pub fn checked_memory_limit(s: &str) -> (r: Option<Option<i64>>)
    ensures
        match r {
            None => !memory_limit_fits(s@),
            Some(None) => memory_limit_value(s@) == None::<int>,
            Some(Some(x)) => memory_limit_value(s@) == Some(x as int),
        },
{
    lowered_limit_bytes(lowered_trimmed(s).as_str())
}

// ───────────────────────── SSH port allocation ─────────────────────────

/// No user name occurs twice (the allocations come from a map keyed by user).
pub open spec fn distinct_users(alloc: Seq<(String, u16)>) -> bool {
    forall|i: int, j: int|
        0 <= i < alloc.len() && 0 <= j < alloc.len() && i != j ==> alloc[i].0@ != alloc[j].0@
}

/// The port currently allocated to `user`, if any.
pub open spec fn port_of(alloc: Seq<(String, u16)>, user: Seq<char>) -> Option<u16> {
    if exists|i: int| 0 <= i < alloc.len() && alloc[i].0@ == user {
        let i = choose|i: int| 0 <= i < alloc.len() && alloc[i].0@ == user;
        Some(alloc[i].1)
    } else {
        None
    }
}

/// A port is taken by someone, not counting the port that `user` already holds.
pub open spec fn port_taken(alloc: Seq<(String, u16)>, user: Seq<char>, p: int) -> bool {
    (exists|i: int| 0 <= i < alloc.len() && alloc[i].1 == p) && port_of(alloc, user) != Some(
        p as u16,
    )
}

/// The SSH host port to give `user`: the lowest port of `start..=end` that is not
/// taken; `start` when all are.
pub open spec fn free_port_spec(alloc: Seq<(String, u16)>, user: Seq<char>, start: u16, end: u16) -> u16 {
    if exists|p: int| start <= p <= end && !port_taken(alloc, user, p) {
        let p = choose|p: int|
            start <= p <= end && !port_taken(alloc, user, p) && forall|q: int|
                start <= q < p ==> port_taken(alloc, user, q);
        p as u16
    } else {
        start
    }
}

/// Below a free port there is a lowest free one.
proof fn lemma_lowest_free_port(alloc: Seq<(String, u16)>, user: Seq<char>, start: int, p: int)
    requires
        start <= p,
        !port_taken(alloc, user, p),
    ensures
        exists|m: int|
            start <= m <= p && !port_taken(alloc, user, m) && forall|q: int| start <= q < m ==> port_taken(alloc, user, q),
    decreases p - start,
{
    if exists|q: int| start <= q < p && !port_taken(alloc, user, q) {
        let q = choose|q: int| start <= q < p && !port_taken(alloc, user, q);
        lemma_lowest_free_port(alloc, user, start, q);
    } else {
        assert(forall|q: int| start <= q < p ==> port_taken(alloc, user, q));
    }
}

/// The SSH port given to a user lies in the range, is held by nobody else (it
/// is unheld, or the user's own), and every lower port of the range is held by
/// someone else; only when every port of the range is held by someone else is
/// the first port of the range given.
pub proof fn lemma_free_port_is_lowest_free(alloc: Seq<(String, u16)>, user: Seq<char>, start: u16, end: u16)
    ensures
        (exists|p: int| start <= p <= end && !port_taken(alloc, user, p)) ==> {
            let r = free_port_spec(alloc, user, start, end);
            &&& start <= r <= end
            &&& (forall|j: int| 0 <= j < alloc.len() ==> alloc[j].1 != r) || port_of(alloc, user) == Some(r)
            &&& forall|q: int| start <= q < r ==> port_taken(alloc, user, q)
        },
        !(exists|p: int| start <= p <= end && !port_taken(alloc, user, p)) ==> free_port_spec(alloc, user, start, end)
            == start,
{
    if exists|p: int| start <= p <= end && !port_taken(alloc, user, p) {
        let p = choose|p: int| start <= p <= end && !port_taken(alloc, user, p);
        lemma_lowest_free_port(alloc, user, start as int, p);
        let m = choose|m: int|
            start <= m <= end && !port_taken(alloc, user, m) && forall|q: int| start <= q < m ==> port_taken(alloc, user, q);
        assert(start <= m <= end && !port_taken(alloc, user, m));
    }
}

/// The lowest free port of `start..=end` for `username`, or `start`.
pub fn find_free_port(alloc: &Vec<(String, u16)>, username: &str, start: u16, end: u16) -> (p: u16)
    requires
        distinct_users(alloc@),
    ensures
        p == free_port_spec(alloc@, username@, start, end),
{
    // the port `username` holds now
    let mut mine: Option<u16> = None;
    let mut i: usize = 0;
    while i < alloc.len()
        invariant
            i <= alloc.len(),
            distinct_users(alloc@),
            match mine {
                Some(m) => port_of(alloc@, username@) == Some(m),
                None => forall|j: int| 0 <= j < i ==> alloc@[j].0@ != username@,
            },
        decreases alloc.len() - i,
    {
        if mine.is_none() && str_eq(alloc[i].0.as_str(), username) {
            proof {
                assert(alloc@[i as int].0@ == username@);
                let k = choose|k: int| 0 <= k < alloc@.len() && alloc@[k].0@ == username@;
                assert(k == i);
            }
            mine = Some(alloc[i].1);
        }
        i = i + 1;
    }
    assert(port_of(alloc@, username@) == mine);
    let mut port: u32 = start as u32;
    while port <= end as u32
        invariant
            start <= port <= end as u32 + 1 || port == start,
            port_of(alloc@, username@) == mine,
            forall|q: int| start <= q < port ==> port_taken(alloc@, username@, q),
        decreases end as u32 + 1 - port,
    {
        let mut taken = false;
        let mut j: usize = 0;
        while j < alloc.len()
            invariant
                j <= alloc.len(),
                taken <==> exists|k: int| 0 <= k < j && alloc@[k].1 == port,
            decreases alloc.len() - j,
        {
            if alloc[j].1 as u32 == port {
                taken = true;
            }
            j = j + 1;
        }
        let used = taken && match mine {
            Some(m) => m as u32 != port,
            None => true,
        };
        if !used {
            proof {
                assert(!port_taken(alloc@, username@, port as int));
                let p = choose|p: int|
                    start <= p <= end && !port_taken(alloc@, username@, p) && forall|q: int|
                        start <= q < p ==> port_taken(alloc@, username@, q);
                assert(start <= p <= end && !port_taken(alloc@, username@, p));
                if p < port {
                    assert(port_taken(alloc@, username@, p));
                }
                if p > port {
                    assert(port_taken(alloc@, username@, port as int));
                }
            }
            return port as u16;
        }
        port = port + 1;
    }
    start
}

/// Changing the entry of one user leaves the ports of all others as they were.
proof fn lemma_port_of_other_user(o: Seq<(String, u16)>, n: Seq<(String, u16)>, i: int, u: Seq<char>)
    requires
        distinct_users(o),
        o.len() == n.len(),
        0 <= i < o.len(),
        o[i].0@ != u,
        n[i].0@ == o[i].0@,
        forall|k: int| 0 <= k < o.len() && k != i ==> n[k] == o[k],
    ensures
        port_of(n, u) == port_of(o, u),
{
    if exists|k: int| 0 <= k < o.len() && o[k].0@ == u {
        let k1 = choose|k: int| 0 <= k < o.len() && o[k].0@ == u;
        assert(n[k1] == o[k1]);
        assert(exists|k: int| 0 <= k < n.len() && n[k].0@ == u);
        let k2 = choose|k: int| 0 <= k < n.len() && n[k].0@ == u;
        assert(k2 != i);
        assert(n[k2] == o[k2]);
        assert(k1 == k2);
    } else {
        assert forall|k: int| 0 <= k < n.len() implies n[k].0@ != u by {
            if k != i {
                assert(n[k] == o[k]);
            }
        }
    }
}

/// Records that `user` now holds `port` (replacing any port it held).
pub fn record_port(alloc: &mut Vec<(String, u16)>, user: &str, port: u16)
    requires
        distinct_users(old(alloc)@),
    ensures
        distinct_users(final(alloc)@),
        port_of(final(alloc)@, user@) == Some(port),
        forall|u: Seq<char>| u != user@ ==> port_of(final(alloc)@, u) == port_of(old(alloc)@, u),
{
    let ghost o = alloc@;
    let mut i: usize = 0;
    while i < alloc.len()
        invariant
            alloc@ == o,
            o == old(alloc)@,
            i <= alloc.len(),
            distinct_users(o),
            forall|j: int| 0 <= j < i ==> o[j].0@ != user@,
        decreases alloc.len() - i,
    {
        if str_eq(alloc[i].0.as_str(), user) {
            let name = alloc[i].0.clone();
            alloc.set(i, (name, port));
            proof {
                let n = alloc@;
                assert forall|a: int, b: int|
                    0 <= a < n.len() && 0 <= b < n.len() && a != b implies n[a].0@ != n[b].0@ by {
                    assert(n[a].0@ == o[a].0@);
                    assert(n[b].0@ == o[b].0@);
                }
                assert(n[i as int].0@ == user@);
                let k = choose|k: int| 0 <= k < n.len() && n[k].0@ == user@;
                assert(k == i);
                assert forall|u: Seq<char>| u != user@ implies port_of(n, u) == port_of(o, u) by {
                    lemma_port_of_other_user(o, n, i as int, u);
                }
            }
            return;
        }
        i = i + 1;
    }
    alloc.push((String::from_str(user), port));
    proof {
        let n = alloc@;
        assert(n[o.len() as int].0@ == user@);
        assert forall|a: int, b: int|
            0 <= a < n.len() && 0 <= b < n.len() && a != b implies n[a].0@ != n[b].0@ by {
            if a < o.len() && b < o.len() {
                assert(n[a] == o[a]);
                assert(n[b] == o[b]);
            } else if a < o.len() {
                assert(n[a] == o[a]);
            } else if b < o.len() {
                assert(n[b] == o[b]);
            }
        }
        let k = choose|k: int| 0 <= k < n.len() && n[k].0@ == user@;
        if k < o.len() {
            assert(n[k] == o[k]);
        }
        assert forall|u: Seq<char>| u != user@ implies port_of(n, u) == port_of(o, u) by {
            if exists|k: int| 0 <= k < o.len() && o[k].0@ == u {
                let k1 = choose|k: int| 0 <= k < o.len() && o[k].0@ == u;
                assert(n[k1] == o[k1]);
                let k2 = choose|k: int| 0 <= k < n.len() && n[k].0@ == u;
                if k2 < o.len() {
                    assert(n[k2] == o[k2]);
                }
            } else {
                assert forall|k: int| 0 <= k < n.len() implies n[k].0@ != u by {
                    if k < o.len() {
                        assert(n[k] == o[k]);
                    }
                }
            }
        }
    }
}

/// The SSH port that the containers found at startup record for `u`: that of
/// the last container (in the order listed) that belongs to `u` and publishes
/// its SSH port.
pub open spec fn recorded_port(cs: Seq<(String, Vec<(u16, Option<u16>)>)>, u: Seq<char>) -> Option<u16>
    decreases cs.len(),
{
    if cs.len() == 0 {
        None
    } else {
        let c = cs.last();
        let owner = container_owner_spec(c.0@);
        if owner.len() > 0 && owner == u && ssh_host_port_spec(c.1@) is Some {
            ssh_host_port_spec(c.1@)
        } else {
            recorded_port(cs.drop_last(), u)
        }
    }
}

/// The SSH port table rebuilt from the running containers, given as (name,
/// port mappings): each container named `/gitpage-<user>` that publishes its
/// SSH port records it for that user, later ones overriding earlier ones.
pub fn allocations_from_containers(containers: &Vec<(String, Vec<(u16, Option<u16>)>)>) -> (alloc: Vec<(String, u16)>)
    ensures
        distinct_users(alloc@),
        forall|u: Seq<char>| #[trigger] port_of(alloc@, u) == recorded_port(containers@, u),
{
    let mut alloc: Vec<(String, u16)> = Vec::new();
    let mut i: usize = 0;
    while i < containers.len()
        invariant
            i <= containers.len(),
            distinct_users(alloc@),
            forall|u: Seq<char>| #[trigger] port_of(alloc@, u) == recorded_port(containers@.take(i as int), u),
        decreases containers.len() - i,
    {
        let ghost before = alloc@;
        let owner = container_owner(containers[i].0.as_str());
        let ghost t = containers@.take(i + 1);
        proof {
            assert(t.drop_last() =~= containers@.take(i as int));
            assert(t.last() == containers@[i as int]);
        }
        if !owner.as_str().is_empty() {
            if let Some(p) = ssh_host_port(&containers[i].1) {
                record_port(&mut alloc, owner.as_str(), p);
            }
        }
        i = i + 1;
        assert forall|u: Seq<char>| #[trigger] port_of(alloc@, u) == recorded_port(containers@.take(i as int), u) by {
            assert(containers@.take(i as int) == t);
        }
    }
    assert(containers@.take(containers.len() as int) =~= containers@);
    alloc
}

/// The SSH port recorded for `user`, or the error `no SSH port for <user>`.
pub fn ssh_port_for(alloc: &Vec<(String, u16)>, user: &str) -> (r: Result<u16, String>)
    requires
        distinct_users(alloc@),
    ensures
        match r {
            Ok(p) => port_of(alloc@, user@) == Some(p),
            Err(m) => port_of(alloc@, user@) == None::<u16> && m@ == "no SSH port for "@ + user@,
        },
{
    let mut i: usize = 0;
    while i < alloc.len()
        invariant
            i <= alloc.len(),
            distinct_users(alloc@),
            forall|j: int| 0 <= j < i ==> alloc@[j].0@ != user@,
        decreases alloc.len() - i,
    {
        if str_eq(alloc[i].0.as_str(), user) {
            proof {
                let k = choose|k: int| 0 <= k < alloc@.len() && alloc@[k].0@ == user@;
                assert(alloc@[i as int].0@ == user@);
                assert(k == i);
            }
            return Ok(alloc[i].1);
        }
        i = i + 1;
    }
    Err(concat2("no SSH port for ", user))
}

/// The host port published for a container's SSH port: the first published
/// mapping of private port 22 decides (`None` when it has no public port, or
/// when there is none).
pub open spec fn ssh_host_port_spec(ports: Seq<(u16, Option<u16>)>) -> Option<u16>
    decreases ports.len(),
{
    if ports.len() == 0 {
        None
    } else if ports[0].0 == 22 {
        ports[0].1
    } else {
        ssh_host_port_spec(ports.drop_first())
    }
}

/// The host port of a container's SSH service, from its (private, public)
/// port mappings in the order Docker lists them.
pub fn ssh_host_port(ports: &Vec<(u16, Option<u16>)>) -> (r: Option<u16>)
    ensures
        r == ssh_host_port_spec(ports@),
{
    let mut i: usize = 0;
    assert(ports@.skip(0) =~= ports@);
    while i < ports.len()
        invariant
            i <= ports.len(),
            ssh_host_port_spec(ports@) == ssh_host_port_spec(ports@.skip(i as int)),
        decreases ports.len() - i,
    {
        assert(ports@.skip(i as int)[0] == ports@[i as int]);
        assert(ports@.skip(i as int).drop_first() =~= ports@.skip(i + 1));
        if ports[i].0 == 22 {
            return ports[i].1;
        }
        i = i + 1;
    }
    None
}

/// The container's address: the first of its network addresses that is set,
/// not empty and not `0.0.0.0`, in the order given.
pub open spec fn usable_ip(ip: Option<Seq<char>>) -> bool {
    ip matches Some(s) && s.len() > 0 && s != "0.0.0.0"@
}

pub open spec fn first_usable_ip(ips: Seq<Option<Seq<char>>>) -> Option<Seq<char>>
    decreases ips.len(),
{
    if ips.len() == 0 {
        None
    } else if usable_ip(ips[0]) {
        ips[0]
    } else {
        first_usable_ip(ips.drop_first())
    }
}

pub open spec fn ips_view(ips: Seq<Option<String>>) -> Seq<Option<Seq<char>>> {
    ips.map_values(|o: Option<String>| match o {
        Some(s) => Some(s@),
        None => None,
    })
}

/// The address to reach a user's container at, from the addresses of its
/// networks; `no IP for gitpage-<user>` when none is usable.
pub fn container_ip(username: &str, ips: &Vec<Option<String>>) -> (r: Result<String, String>)
    ensures
        match first_usable_ip(ips_view(ips@)) {
            Some(ip) => r matches Ok(s) && s@ == ip,
            None => r matches Err(m) && m@ == "no IP for "@ + ("gitpage-"@ + username@),
        },
{
    let ghost iv = ips_view(ips@);
    let mut i: usize = 0;
    assert(iv.skip(0) =~= iv);
    while i < ips.len()
        invariant
            i <= ips.len(),
            iv == ips_view(ips@),
            first_usable_ip(iv) == first_usable_ip(iv.skip(i as int)),
        decreases ips.len() - i,
    {
        assert(iv.skip(i as int)[0] == iv[i as int]);
        assert(iv.skip(i as int).drop_first() =~= iv.skip(i + 1));
        if let Some(ip) = &ips[i] {
            if !ip.as_str().is_empty() && !str_eq(ip.as_str(), "0.0.0.0") {
                return Ok(ip.clone());
            }
        }
        i = i + 1;
    }
    let mut m = String::from_str("no IP for ");
    m.append(container_name(username).as_str());
    Err(m)
}

/// The container filter that selects a container by name (`{"name": [name]}`).
pub fn name_filter(name: &str) -> (f: Vec<(String, Vec<String>)>)
    ensures
        f@.len() == 1,
        f@[0].0@ == "name"@,
        f@[0].1@.len() == 1,
        f@[0].1@[0]@ == name@,
{
    vec![(String::from_str("name"), vec![String::from_str(name)])]
}

/// The environment of an app started inside a container: `PORT`,
/// `HOST=0.0.0.0`, then the given variables.
pub fn container_app_env(port: u16, env_vars: Option<Vec<String>>) -> (env: Vec<String>)
    ensures
        env@.map_values(|s: String| s@) == seq!["PORT="@ + decimal(port as nat), "HOST=0.0.0.0"@] + match env_vars {
            Some(v) => v@.map_values(|s: String| s@),
            None => Seq::empty(),
        },
{
    let mut env: Vec<String> = Vec::new();
    env.push(concat2("PORT=", u64_to_string(port as u64).as_str()));
    env.push(String::from_str("HOST=0.0.0.0"));
    let ghost head = env@.map_values(|s: String| s@);
    match env_vars {
        Some(mut v) => {
            let ghost vv = v@.map_values(|s: String| s@);
            env.append(&mut v);
            assert(env@.map_values(|s: String| s@) =~= head + vv);
        },
        None => {
            assert(env@.map_values(|s: String| s@) =~= head + Seq::<Seq<char>>::empty());
        },
    }
    env
}

/// The shell command that prints the first process listening on `port`.
pub fn listening_check_command(port: u16) -> (s: String)
    ensures
        s@ == "lsof -i :"@ + decimal(port as nat) + " -t 2>/dev/null | head -1"@,
{
    let mut s = String::from_str("lsof -i :");
    s.append(u64_to_string(port as u64).as_str());
    s.append(" -t 2>/dev/null | head -1");
    s
}

/// The shell command that kills whatever listens on `port`.
pub fn kill_listeners_command(port: u16) -> (s: String)
    ensures
        s@ == "lsof -ti :"@ + decimal(port as nat) + " | xargs -r kill -9"@,
{
    let mut s = String::from_str("lsof -ti :");
    s.append(u64_to_string(port as u64).as_str());
    s.append(" | xargs -r kill -9");
    s
}

/// An app counts as up once the listening check printed anything but blanks.
pub fn listener_found(check_output: &str) -> (b: bool)
    ensures
        b == (trim(check_output@).len() > 0),
{
    let v = chars_of(check_output);
    assert(v@.subrange(0, v.len() as int) =~= check_output@);
    let (a, b) = trim_bounds(&v, 0, v.len());
    a < b
}

/// A password character: lowercase ASCII letter or digit.
pub open spec fn is_password_char(c: char) -> bool {
    ('a' <= c <= 'z') || ('0' <= c <= '9')
}

/// `rand::Rng::gen_range(0..n)` on `OsRng`: a random index below `n`. Only the
/// range is claimed; `gen_range` panics on an empty range, which `requires`
/// leaves out.
#[verifier::external_body]
fn random_index(n: usize) -> (i: usize)
    requires
        n > 0,
    ensures
        i < n,
{
    rand::Rng::gen_range(&mut rand::rngs::OsRng, 0..n)
}

/// The alphabet of generated passwords.
pub open spec fn password_alphabet() -> Seq<char> {
    "abcdefghijklmnopqrstuvwxyz0123456789"@
}

/// The password spelled by indices into the password alphabet.
pub fn password_from_indices(indices: &Vec<usize>) -> (s: String)
    requires
        forall|i: int| 0 <= i < indices@.len() ==> indices@[i] < 36,
    ensures
        s@.len() == indices@.len(),
        forall|i: int| 0 <= i < indices@.len() ==> #[trigger] s@[i] == password_alphabet()[indices@[i] as int],
{
    let alphabet = chars_of("abcdefghijklmnopqrstuvwxyz0123456789");
    proof {
        reveal_strlit("abcdefghijklmnopqrstuvwxyz0123456789");
    }
    let mut s = String::new();
    let mut n: usize = 0;
    while n < indices.len()
        invariant
            n <= indices@.len(),
            s@.len() == n,
            alphabet@ == password_alphabet(),
            alphabet@.len() == 36,
            forall|i: int| 0 <= i < indices@.len() ==> indices@[i] < 36,
            forall|i: int| 0 <= i < n ==> #[trigger] s@[i] == password_alphabet()[indices@[i] as int],
        decreases indices.len() - n,
    {
        let c = alphabet[indices[n]];
        crate::text::push_char(&mut s, c);
        n = n + 1;
    }
    s
}

/// A random password of `len` characters, each drawn from lowercase ASCII
/// letters and digits.
pub fn generate_password(len: usize) -> (s: String)
    ensures
        s@.len() == len,
        forall|i: int| 0 <= i < len ==> is_password_char(#[trigger] s@[i]),
{
    let mut indices: Vec<usize> = Vec::new();
    while indices.len() < len
        invariant
            indices@.len() <= len,
            forall|i: int| 0 <= i < indices@.len() ==> indices@[i] < 36,
        decreases len - indices@.len(),
    {
        indices.push(random_index(36));
    }
    let s = password_from_indices(&indices);
    proof {
        reveal_strlit("abcdefghijklmnopqrstuvwxyz0123456789");
        assert forall|i: int| 0 <= i < len implies is_password_char(#[trigger] s@[i]) by {
            let k = indices@[i] as int;
            assert(0 <= k < 36);
            assert(s@[i] == password_alphabet()[k]);
        }
    }
    s
}

// ───────────────────────── container text ─────────────────────────

/// `gitpage-{username}`
pub fn container_name(username: &str) -> (s: String)
    ensures
        s@ == "gitpage-"@ + username@,
{
    concat2("gitpage-", username)
}

/// The owner of a container named `/gitpage-{user}` (empty when the name is not
/// of that form).
pub open spec fn container_owner_spec(name: Seq<char>) -> Seq<char> {
    let t = trim_start_char(name, '/');
    if starts_with(t, "gitpage-"@) {
        t.skip(8)
    } else {
        Seq::empty()
    }
}

/// The user that a container name belongs to.
pub fn container_owner(name: &str) -> (s: String)
    ensures
        s@ == container_owner_spec(name@),
{
    let v = chars_of(name);
    let a = trim_start_char_bound(&v, 0, v.len(), '/');
    assert(v@.subrange(0, v@.len() as int) =~= name@);
    let prefix = chars_of("gitpage-");
    proof {
        reveal_strlit("gitpage-");
    }
    if starts_with_in(&v, a, v.len(), &prefix) {
        assert(v@.subrange(a + 8, v@.len() as int) =~= v@.subrange(a as int, v@.len() as int).skip(8));
        string_of_range(&v, a + 8, v.len())
    } else {
        String::new()
    }
}

/// A container counts as up when Docker reports it `RUNNING` or its status says `Up`.
pub fn container_is_up(state: &str, status: &str) -> (b: bool)
    ensures
        b == (state@ == "RUNNING"@ || contains(status@, "Up"@)),
{
    let st = chars_of(state);
    let running = chars_of("RUNNING");
    let sv = chars_of(status);
    let up = chars_of("Up");
    assert(sv@.subrange(0, sv@.len() as int) =~= sv@);
    let same = vec_eq(&st, &running);
    same || contains_in(&sv, 0, sv.len(), &up)
}

/// The shell command a new container runs: create the user with the generated
/// password, then keep `sshd` in the foreground.
pub open spec fn setup_command_spec(u: Seq<char>, p: Seq<char>) -> Seq<char> {
    "useradd -m "@ + u + " 2>/dev/null; echo '"@ + u + ":"@ + p
        + "' | chpasswd; mkdir -p /run/sshd; /usr/sbin/sshd -D & sleep infinity"@
}

pub fn container_setup_command(username: &str, password: &str) -> (s: String)
    ensures
        s@ == setup_command_spec(username@, password@),
{
    let mut s = concat2("useradd -m ", username);
    s.append(" 2>/dev/null; echo '");
    s.append(username);
    s.append(":");
    s.append(password);
    s.append("' | chpasswd; mkdir -p /run/sshd; /usr/sbin/sshd -D & sleep infinity");
    s
}

/// The two volume binds: the user's home volume and the apps workspace.
pub fn container_binds(username: &str, apps_host: &str) -> (v: Vec<String>)
    ensures
        v@.len() == 2,
        v@[0]@ == "gitpage-home-"@ + username@ + ":/home/"@ + username@,
        v@[1]@ == apps_host@ + ":/workspace"@,
{
    let mut home = concat2("gitpage-home-", username);
    home.append(":/home/");
    home.append(username);
    let work = concat2(apps_host, ":/workspace");
    vec![home, work]
}

/// The working directory of an app inside the container.
pub fn app_workdir(repo_name: &str) -> (s: String)
    ensures
        s@ == "/workspace/"@ + repo_name@ + "/source"@,
{
    let mut s = concat2("/workspace/", repo_name);
    s.append("/source");
    s
}

} // verus!
