//! SSH access: which public keys are accepted and the `authorized_keys` file.
use vstd::prelude::*;
use crate::errors::AppError;
use crate::models::{Repository, SshKey, User};
use crate::text::{
    chars_of, concat2, find_char, find_char_in, has_char, lemma_find_char, lemma_find_char_is,
    lemma_find_char_none, starts_with, starts_with_in, trim, trim_bounds,
};

verus! {

broadcast use vstd::string::group_string_axioms;

/// The first word of a trimmed key: everything before the first space.
pub open spec fn key_type_word(t: Seq<char>) -> Seq<char> {
    match find_char(t, ' ') {
        Some(i) => t.take(i),
        None => t,
    }
}

/// The key types that are accepted.
pub open spec fn accepted_key_type(w: Seq<char>) -> bool {
    starts_with(w, "ssh-rsa"@) || starts_with(w, "ssh-ed25519"@) || starts_with(w, "ecdsa-sha2-"@)
}

/// Checks that a submitted SSH public key is non-empty and of an accepted type.
pub fn validate_public_key(key: &str) -> (r: Result<(), AppError>)
    ensures
        trim(key@).len() == 0 ==> (r matches Err(AppError::BadRequest(m)) && m@
            == "請輸入 SSH Public Key"@),
        r is Ok <==> trim(key@).len() > 0 && accepted_key_type(key_type_word(trim(key@))),
        trim(key@).len() > 0 && !accepted_key_type(key_type_word(trim(key@))) ==> (r matches Err(
            AppError::BadRequest(m),
        ) && m@ == "SSH Public Key 格式錯誤，開頭須為 ssh-rsa、ssh-ed25519 或 ecdsa-sha2-"@),
{
    let v = chars_of(key);
    let (a, b) = trim_bounds(&v, 0, v.len());
    assert(v@.subrange(0, v@.len() as int) =~= key@);
    let ghost t = v@.subrange(a as int, b as int);
    if a == b {
        return Err(AppError::BadRequest("請輸入 SSH Public Key".to_string()));
    }
    let end = match find_char_in(&v, a, b, ' ') {
        Some(i) => {
            proof {
                lemma_find_char(t, ' ');
                assert(v@.subrange(a as int, a + i) =~= t.take(i as int));
            }
            a + i
        },
        None => b,
    };
    assert(v@.subrange(a as int, end as int) == key_type_word(t));
    let rsa = chars_of("ssh-rsa");
    let ed = chars_of("ssh-ed25519");
    let ec = chars_of("ecdsa-sha2-");
    if !starts_with_in(&v, a, end, &rsa) && !starts_with_in(&v, a, end, &ed) && !starts_with_in(
        &v,
        a,
        end,
        &ec,
    ) {
        return Err(
            AppError::BadRequest(
                "SSH Public Key 格式錯誤，開頭須為 ssh-rsa、ssh-ed25519 或 ecdsa-sha2-".to_string(),
            ),
        );
    }
    Ok(())
}

/// `{home}/.ssh`, with `/tmp` standing in for an unset `HOME`.
pub open spec fn ssh_dir_spec(home: Option<Seq<char>>) -> Seq<char> {
    match home {
        Some(h) => h + "/.ssh"@,
        None => "/tmp/.ssh"@,
    }
}

/// The characters of an optional string slice.
pub open spec fn opt_view(o: Option<&str>) -> Option<Seq<char>> {
    match o {
        Some(h) => Some(h@),
        None => None,
    }
}

/// The SSH directory of the account the server runs as, given `$HOME`.
pub fn ssh_dir(home: Option<&str>) -> (s: String)
    ensures
        s@ == ssh_dir_spec(opt_view(home)),
{
    match home {
        Some(h) => concat2(h, "/.ssh"),
        None => "/tmp/.ssh".to_string(),
    }
}

/// The `authorized_keys` file inside the SSH directory, given `$HOME`.
pub fn authorized_keys_path(home: Option<&str>) -> (s: String)
    ensures
        s@ == ssh_dir_spec(opt_view(home)) + "/authorized_keys"@,
{
    let mut d = ssh_dir(home);
    d.append("/authorized_keys");
    d
}

/// The forced-command script inside the SSH directory.
pub fn shell_script_path(ssh_dir: &str) -> (s: String)
    ensures
        s@ == ssh_dir@ + "/gitpage-shell"@,
{
    concat2(ssh_dir, "/gitpage-shell")
}

/// One line of `authorized_keys` in the OpenSSH format (options, key, comment):
/// the key may only run the shell script with its user and repository as
/// arguments, without any forwarding.
pub open spec fn key_line(script: Seq<char>, key: SshKey, user: User, repo: Repository) -> Seq<char> {
    "command=\""@ + script + " "@ + user.username@ + " "@ + repo.name@ + "\""@
        + ",no-port-forwarding,no-X11-forwarding,no-agent-forwarding "@ + key.public_key@ + " "@
        + key.name@ + "\n"@
}

/// The whole file: one line per key, in order.
pub open spec fn authorized_keys_spec(script: Seq<char>, keys: Seq<(SshKey, User, Repository)>) -> Seq<
    char,
>
    decreases keys.len(),
{
    if keys.len() == 0 {
        Seq::empty()
    } else {
        let k = keys.last();
        authorized_keys_spec(script, keys.drop_last()) + key_line(script, k.0, k.1, k.2)
    }
}

/// The content of `authorized_keys` for all registered keys.
pub fn authorized_keys_content(script_path: &str, all_keys: &Vec<(SshKey, User, Repository)>) -> (s:
    String)
    ensures
        s@ == authorized_keys_spec(script_path@, all_keys@),
{
    let mut out = String::new();
    let mut i: usize = 0;
    while i < all_keys.len()
        invariant
            i <= all_keys.len(),
            out@ == authorized_keys_spec(script_path@, all_keys@.take(i as int)),
        decreases all_keys.len() - i,
    {
        let (key, user, repo) = &all_keys[i];
        out.append("command=\"");
        out.append(script_path);
        out.append(" ");
        out.append(user.username.as_str());
        out.append(" ");
        out.append(repo.name.as_str());
        out.append("\"");
        out.append(",no-port-forwarding,no-X11-forwarding,no-agent-forwarding ");
        out.append(key.public_key.as_str());
        out.append(" ");
        out.append(key.name.as_str());
        out.append("\n");
        proof {
            assert(all_keys@.take(i + 1).drop_last() =~= all_keys@.take(i as int));
            assert(all_keys@.take(i + 1).last() == all_keys@[i as int]);
        }
        i = i + 1;
        assert(out@ =~= authorized_keys_spec(script_path@, all_keys@.take(i as int)));
    }
    assert(all_keys@.take(all_keys.len() as int) =~= all_keys@);
    out
}

// ───────────────────────── laws ─────────────────────────

/// A submitted key, trimmed, is a first word `w` (no space in it) and the rest,
/// which is empty or starts with a space. The key is accepted exactly when `w`
/// is non-empty and starts with `ssh-rsa`, `ssh-ed25519` or `ecdsa-sha2-`.
pub proof fn lemma_key_accepted_by_first_word(key: Seq<char>, w: Seq<char>, rest: Seq<char>)
    requires
        trim(key) == w + rest,
        !has_char(w, ' '),
        rest.len() == 0 || rest[0] == ' ',
    ensures
        (trim(key).len() > 0 && accepted_key_type(key_type_word(trim(key)))) <==> (w.len() > 0 && (
        starts_with(w, "ssh-rsa"@) || starts_with(w, "ssh-ed25519"@) || starts_with(w, "ecdsa-sha2-"@))),
{
    let t = w + rest;
    assert forall|j: int| 0 <= j < w.len() implies t[j] != ' ' by {
        assert(t[j] == w[j]);
        if t[j] == ' ' {
            assert(has_char(w, ' '));
        }
    }
    if rest.len() == 0 {
        assert(t =~= w);
        lemma_find_char_none(t, ' ');
    } else {
        assert(t[w.len() as int] == rest[0]);
        lemma_find_char_is(t, ' ', w.len() as int);
        assert(t.take(w.len() as int) =~= w);
    }
    assert(key_type_word(t) == w);
    reveal_strlit("ssh-rsa");
    reveal_strlit("ssh-ed25519");
    reveal_strlit("ecdsa-sha2-");
}

/// The `authorized_keys` line of one key, written out.
pub open spec fn openssh_line(script: Seq<char>, k: (SshKey, User, Repository)) -> Seq<char> {
    "command=\""@ + script + " "@ + k.1.username@ + " "@ + k.2.name@ + "\""@
        + ",no-port-forwarding,no-X11-forwarding,no-agent-forwarding "@ + k.0.public_key@ + " "@
        + k.0.name@ + "\n"@
}

/// A summed length is never negative.
proof fn lemma_lines_len_nonneg(script: Seq<char>, keys: Seq<(SshKey, User, Repository)>)
    ensures
        lines_len(script, keys) >= 0,
    decreases keys.len(),
{
    if keys.len() > 0 {
        lemma_lines_len_nonneg(script, keys.drop_last());
    }
}

/// The lines before position `i` are no longer than all the lines.
proof fn lemma_lines_len_prefix(script: Seq<char>, keys: Seq<(SshKey, User, Repository)>, i: int)
    requires
        0 <= i < keys.len(),
    ensures
        lines_len(script, keys.take(i + 1)) == lines_len(script, keys.take(i)) + openssh_line(script, keys[i]).len(),
        lines_len(script, keys.take(i + 1)) <= lines_len(script, keys),
    decreases keys.len() - i,
{
    assert(keys.take(i + 1).drop_last() =~= keys.take(i));
    assert(keys.take(i + 1).last() == keys[i]);
    if i + 1 < keys.len() {
        lemma_lines_len_prefix(script, keys, i + 1);
        assert(openssh_line(script, keys[i + 1]).len() >= 0);
    } else {
        assert(keys.take(i + 1) =~= keys);
    }
}

/// The summed length of the lines of `keys`.
pub open spec fn lines_len(script: Seq<char>, keys: Seq<(SshKey, User, Repository)>) -> int
    decreases keys.len(),
{
    if keys.len() == 0 {
        0
    } else {
        lines_len(script, keys.drop_last()) + openssh_line(script, keys.last()).len()
    }
}

/// The file holds every key's line, in order: its length is the sum of the
/// lines' lengths, and the line of `keys[i]` stands at the offset given by the
/// lines before it.
pub proof fn lemma_authorized_keys_lists_every_key(script: Seq<char>, keys: Seq<(SshKey, User, Repository)>)
    ensures
        authorized_keys_spec(script, keys).len() == lines_len(script, keys),
        forall|i: int|
            0 <= i < keys.len() ==> authorized_keys_spec(script, keys).subrange(
                lines_len(script, keys.take(i)),
                lines_len(script, keys.take(i)) + openssh_line(script, #[trigger] keys[i]).len(),
            ) == openssh_line(script, keys[i]),
    decreases keys.len(),
{
    if keys.len() > 0 {
        let init = keys.drop_last();
        lemma_authorized_keys_lists_every_key(script, init);
        let k = keys.last();
        assert(key_line(script, k.0, k.1, k.2) =~= openssh_line(script, k));
        let out = authorized_keys_spec(script, keys);
        let head = authorized_keys_spec(script, init);
        assert(out == head + openssh_line(script, k));
        assert forall|i: int| 0 <= i < keys.len() implies out.subrange(
            lines_len(script, keys.take(i)),
            lines_len(script, keys.take(i)) + openssh_line(script, #[trigger] keys[i]).len(),
        ) == openssh_line(script, keys[i]) by {
            if i < keys.len() - 1 {
                assert(keys.take(i) =~= init.take(i));
                assert(keys[i] == init[i]);
                let a = lines_len(script, init.take(i));
                let l = openssh_line(script, init[i]);
                assert(head.subrange(a, a + l.len()) == l);
                lemma_lines_len_prefix(script, init, i);
                lemma_lines_len_nonneg(script, init.take(i));
                assert(head.len() == lines_len(script, init));
                assert(out.subrange(a, a + l.len()) =~= head.subrange(a, a + l.len()));
            } else {
                assert(keys.take(i) =~= init);
                assert(keys[i] == k);
                assert(out.subrange(head.len() as int, out.len() as int) =~= openssh_line(script, k));
            }
        }
    }
}

} // verus!
