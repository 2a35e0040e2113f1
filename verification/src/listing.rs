//! Directory listings: hidden entries dropped, directories first, then by name.
use vstd::prelude::*;
use vstd::seq_lib::to_multiset_insert;
use crate::models::FileEntry;
use crate::text::chars_of;

verus! {

broadcast use vstd::string::group_string_axioms;

/// Byte-wise (`String` `Ord`) order of names; for UTF-8 text this is the
/// order of the code points.
pub open spec fn name_le(a: Seq<char>, b: Seq<char>) -> bool
    decreases a.len(),
{
    if a.len() == 0 {
        true
    } else if b.len() == 0 {
        false
    } else if (a[0] as u32) < (b[0] as u32) {
        true
    } else if (a[0] as u32) > (b[0] as u32) {
        false
    } else {
        name_le(a.drop_first(), b.drop_first())
    }
}

pub open spec fn same_char(a: char, b: char) -> bool {
    (a as u32) == (b as u32)
}

/// Listing order: directories before files, then by name.
pub open spec fn entry_le(a_dir: bool, a_name: Seq<char>, b_dir: bool, b_name: Seq<char>) -> bool {
    (a_dir && !b_dir) || (a_dir == b_dir && name_le(a_name, b_name))
}

/// Hidden entries (whose name starts with a dot) are not listed.
pub open spec fn is_hidden(name: Seq<char>) -> bool {
    name.len() > 0 && name[0] == '.'
}

pub open spec fn pair_le(a: (String, bool), b: (String, bool)) -> bool {
    entry_le(a.1, a.0@, b.1, b.0@)
}

pub open spec fn pair_visible(a: (String, bool)) -> bool {
    !is_hidden(a.0@)
}

pub open spec fn file_le(a: FileEntry, b: FileEntry) -> bool {
    entry_le(a.is_dir, a.name@, b.is_dir, b.name@)
}

pub open spec fn file_visible(a: FileEntry) -> bool {
    !is_hidden(a.name@)
}

proof fn lemma_name_le_total(a: Seq<char>, b: Seq<char>)
    ensures
        name_le(a, b) || name_le(b, a),
    decreases a.len(),
{
    if a.len() > 0 && b.len() > 0 && same_char(a[0], b[0]) {
        lemma_name_le_total(a.drop_first(), b.drop_first());
    }
}

proof fn lemma_name_le_trans(a: Seq<char>, b: Seq<char>, c: Seq<char>)
    requires
        name_le(a, b),
        name_le(b, c),
    ensures
        name_le(a, c),
    decreases a.len(),
{
    if a.len() > 0 && b.len() > 0 && c.len() > 0 && same_char(a[0], b[0]) && same_char(b[0], c[0]) {
        lemma_name_le_trans(a.drop_first(), b.drop_first(), c.drop_first());
    }
}

proof fn lemma_entry_le_total(ad: bool, an: Seq<char>, bd: bool, bn: Seq<char>)
    ensures
        entry_le(ad, an, bd, bn) || entry_le(bd, bn, ad, an),
{
    lemma_name_le_total(an, bn);
}

proof fn lemma_entry_le_trans(
    ad: bool,
    an: Seq<char>,
    bd: bool,
    bn: Seq<char>,
    cd: bool,
    cn: Seq<char>,
)
    requires
        entry_le(ad, an, bd, bn),
        entry_le(bd, bn, cd, cn),
    ensures
        entry_le(ad, an, cd, cn),
{
    if ad == bd && bd == cd {
        lemma_name_le_trans(an, bn, cn);
    }
}

/// Whether a name starts with a dot.
pub fn starts_with_dot(name: &str) -> (b: bool)
    ensures
        b == is_hidden(name@),
{
    let v = chars_of(name);
    v.len() > 0 && v[0] == '.'
}

/// `name_le` on two strings.
pub fn name_le_exec(a: &str, b: &str) -> (r: bool)
    ensures
        r == name_le(a@, b@),
{
    let va = chars_of(a);
    let vb = chars_of(b);
    let mut i: usize = 0;
    proof {
        assert(va@.skip(0) =~= va@);
        assert(vb@.skip(0) =~= vb@);
    }
    while i < va.len() && i < vb.len() && (va[i] as u32) == (vb[i] as u32)
        invariant
            i <= va.len(),
            i <= vb.len(),
            name_le(a@, b@) == name_le(va@.skip(i as int), vb@.skip(i as int)),
        decreases va.len() - i,
    {
        proof {
            assert(va@.skip(i as int).drop_first() =~= va@.skip(i + 1));
            assert(vb@.skip(i as int).drop_first() =~= vb@.skip(i + 1));
            assert(va@.skip(i as int)[0] == va@[i as int]);
            assert(vb@.skip(i as int)[0] == vb@[i as int]);
        }
        i = i + 1;
    }
    if i == va.len() {
        true
    } else if i == vb.len() {
        false
    } else {
        assert(va@.skip(i as int)[0] == va@[i as int]);
        assert(vb@.skip(i as int)[0] == vb@[i as int]);
        (va[i] as u32) < (vb[i] as u32)
    }
}

/// `entry_le` on concrete values.
pub fn entry_le_exec(a_dir: bool, a_name: &str, b_dir: bool, b_name: &str) -> (r: bool)
    ensures
        r == entry_le(a_dir, a_name@, b_dir, b_name@),
{
    (a_dir && !b_dir) || (a_dir == b_dir && name_le_exec(a_name, b_name))
}

/// Filters out hidden entries and orders `(name, is_dir)` pairs for display.
pub fn order_entries(entries: Vec<(String, bool)>) -> (out: Vec<(String, bool)>)
    ensures
        forall|i: int, j: int| 0 <= i < j < out.len() ==> pair_le(out@[i], out@[j]),
        out@.to_multiset() == entries@.filter(|e: (String, bool)| pair_visible(e)).to_multiset(),
{
    let mut out: Vec<(String, bool)> = Vec::new();
    let mut k: usize = 0;
    let ghost vis = |e: (String, bool)| pair_visible(e);
    proof {
        assert(entries@.take(0) =~= Seq::<(String, bool)>::empty());
        assert(entries@.take(0).filter(vis) =~= Seq::<(String, bool)>::empty());
        assert(out@ =~= Seq::<(String, bool)>::empty());
    }
    while k < entries.len()
        invariant
            k <= entries.len(),
            forall|i: int, j: int| 0 <= i < j < out.len() ==> pair_le(out@[i], out@[j]),
            out@.to_multiset() == entries@.take(k as int).filter(vis).to_multiset(),
            vis == (|e: (String, bool)| pair_visible(e)),
        decreases entries.len() - k,
    {
        let x = (entries[k].0.clone(), entries[k].1);
        assert(x == entries@[k as int]);
        proof {
            assert(entries@.take(k + 1).drop_last() =~= entries@.take(k as int));
            entries@.take(k as int).lemma_filter_push(entries@[k as int], vis);
            assert(entries@.take(k + 1) =~= entries@.take(k as int).push(entries@[k as int]));
        }
        let name = x.0.as_str();
        let hidden = starts_with_dot(name);
        if !hidden {
            let mut p: usize = 0;
            while p < out.len() && entry_le_exec(out[p].1, out[p].0.as_str(), x.1, name)
                invariant
                    p <= out.len(),
                    name@ == x.0@,
                    forall|i: int| 0 <= i < p ==> pair_le(out@[i], x),
                decreases out.len() - p,
            {
                p = p + 1;
            }
            proof {
                assert forall|i: int| p <= i < out.len() implies pair_le(x, out@[i]) by {
                    assert(!pair_le(out@[p as int], x));
                    if i > p {
                        assert(pair_le(out@[p as int], out@[i]));
                    }
                    lemma_entry_le_total(x.1, x.0@, out@[p as int].1, out@[p as int].0@);
                    if i > p {
                        lemma_entry_le_trans(
                            x.1,
                            x.0@,
                            out@[p as int].1,
                            out@[p as int].0@,
                            out@[i].1,
                            out@[i].0@,
                        );
                    }
                }
            }
            proof {
                broadcast use to_multiset_insert;
                assert(out@.insert(p as int, x).to_multiset() == out@.to_multiset().insert(x));
                assert forall|i: int, j: int| 0 <= i < j < out@.len() + 1 implies pair_le(
                    #[trigger] out@.insert(p as int, x)[i],
                    #[trigger] out@.insert(p as int, x)[j],
                ) by {
                    let s = out@.insert(p as int, x);
                    out@.insert_ensures(p as int, x);
                    if j < p {
                    } else if i < p && j == p {
                    } else if i < p && j > p {
                        assert(out@[j - 1] == out@.insert(p as int, x)[(j - 1) + 1]);
                    } else if i == p {
                        assert(out@[j - 1] == out@.insert(p as int, x)[(j - 1) + 1]);
                    } else {
                        assert(out@[i - 1] == out@.insert(p as int, x)[(i - 1) + 1]);
                        assert(out@[j - 1] == out@.insert(p as int, x)[(j - 1) + 1]);
                        assert(pair_le(out@[i - 1], out@[j - 1]));
                    }
                }
            }
            out.insert(p, x);
            proof {
                assert(vis(x));
                vstd::seq_lib::to_multiset_build(entries@.take(k as int).filter(vis), x);
            }
        } else {
            assert(!vis(x));
        }
        k = k + 1;
    }
    assert(entries@.take(entries.len() as int) =~= entries@);
    out
}

/// Filters out hidden entries and orders a staging-directory listing for display.
pub fn order_file_entries(entries: Vec<FileEntry>) -> (out: Vec<FileEntry>)
    ensures
        forall|i: int, j: int| 0 <= i < j < out.len() ==> file_le(out@[i], out@[j]),
        out@.to_multiset() == entries@.filter(|e: FileEntry| file_visible(e)).to_multiset(),
{
    let mut out: Vec<FileEntry> = Vec::new();
    let mut k: usize = 0;
    let ghost vis = |e: FileEntry| file_visible(e);
    proof {
        assert(entries@.take(0) =~= Seq::<FileEntry>::empty());
        assert(entries@.take(0).filter(vis) =~= Seq::<FileEntry>::empty());
        assert(out@ =~= Seq::<FileEntry>::empty());
    }
    while k < entries.len()
        invariant
            k <= entries.len(),
            forall|i: int, j: int| 0 <= i < j < out.len() ==> file_le(out@[i], out@[j]),
            out@.to_multiset() == entries@.take(k as int).filter(vis).to_multiset(),
            vis == (|e: FileEntry| file_visible(e)),
        decreases entries.len() - k,
    {
        let x = FileEntry {
            name: entries[k].name.clone(),
            is_dir: entries[k].is_dir,
            size: entries[k].size,
            updated_at: entries[k].updated_at.clone(),
        };
        assert(x == entries@[k as int]);
        proof {
            assert(entries@.take(k + 1).drop_last() =~= entries@.take(k as int));
            entries@.take(k as int).lemma_filter_push(entries@[k as int], vis);
            assert(entries@.take(k + 1) =~= entries@.take(k as int).push(entries@[k as int]));
        }
        let name = x.name.as_str();
        let hidden = starts_with_dot(name);
        if !hidden {
            let mut p: usize = 0;
            while p < out.len() && entry_le_exec(out[p].is_dir, out[p].name.as_str(), x.is_dir, name)
                invariant
                    p <= out.len(),
                    name@ == x.name@,
                    forall|i: int| 0 <= i < p ==> file_le(out@[i], x),
                decreases out.len() - p,
            {
                p = p + 1;
            }
            proof {
                assert forall|i: int| p <= i < out.len() implies file_le(x, out@[i]) by {
                    assert(!file_le(out@[p as int], x));
                    if i > p {
                        assert(file_le(out@[p as int], out@[i]));
                    }
                    lemma_entry_le_total(x.is_dir, x.name@, out@[p as int].is_dir, out@[p as int].name@);
                    if i > p {
                        lemma_entry_le_trans(
                            x.is_dir,
                            x.name@,
                            out@[p as int].is_dir,
                            out@[p as int].name@,
                            out@[i].is_dir,
                            out@[i].name@,
                        );
                    }
                }
            }
            proof {
                broadcast use to_multiset_insert;
                assert(out@.insert(p as int, x).to_multiset() == out@.to_multiset().insert(x));
                assert forall|i: int, j: int| 0 <= i < j < out@.len() + 1 implies file_le(
                    #[trigger] out@.insert(p as int, x)[i],
                    #[trigger] out@.insert(p as int, x)[j],
                ) by {
                    let s = out@.insert(p as int, x);
                    out@.insert_ensures(p as int, x);
                    if j < p {
                    } else if i < p && j == p {
                    } else if i < p && j > p {
                        assert(out@[j - 1] == out@.insert(p as int, x)[(j - 1) + 1]);
                    } else if i == p {
                        assert(out@[j - 1] == out@.insert(p as int, x)[(j - 1) + 1]);
                    } else {
                        assert(out@[i - 1] == out@.insert(p as int, x)[(i - 1) + 1]);
                        assert(out@[j - 1] == out@.insert(p as int, x)[(j - 1) + 1]);
                        assert(file_le(out@[i - 1], out@[j - 1]));
                    }
                }
            }
            out.insert(p, x);
            proof {
                assert(vis(x));
                vstd::seq_lib::to_multiset_build(entries@.take(k as int).filter(vis), x);
            }
        } else {
            assert(!vis(x));
        }
        k = k + 1;
    }
    assert(entries@.take(entries.len() as int) =~= entries@);
    out
}

} // verus!
