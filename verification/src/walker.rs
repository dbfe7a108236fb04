//! The directory walker over a modelled filesystem subtree. The caller reads
//! the directory structure into an `FsEntry` tree; the walker enumerates it
//! depth first, pruning every dot-named entry and every directory named
//! `node_modules` outright, and yields the path of every eligible source
//! file, siblings in the order the tree gives them.

use vstd::prelude::*;
use vstd::string::{StrSliceExecFns, StringExecFns};
use crate::classify::{eligible_name, is_dot_name, should_process_file};
use crate::text::{names_view, str_eq};

verus! {

broadcast use vstd::seq::axiom_seq_index_decreases, vstd::std_specs::vec::axiom_vec_decreases_to_view;

/// One entry of the modelled filesystem: a directory with its entries, or a
/// file. The name is the entry's own file name, without the leading path.
pub enum FsEntry {
    Dir { name: String, entries: Vec<FsEntry> },
    File { name: String },
}

/// The file name of an entry.
pub open spec fn entry_name(e: FsEntry) -> Seq<char> {
    match e {
        FsEntry::Dir { name, .. } => name@,
        FsEntry::File { name } => name@,
    }
}

/// A path joined from a (possibly empty) prefix and a file name.
pub open spec fn join_path(prefix: Seq<char>, name: Seq<char>) -> Seq<char> {
    if prefix.len() == 0 {
        name
    } else {
        prefix + "/"@ + name
    }
}

/// The paths the walk of one entry yields, depth first: nothing for a
/// dot-named entry or a directory named `node_modules`; the entry's own path
/// for an eligible file; the walk of the entries in order for any other
/// directory.
pub open spec fn walk_spec(prefix: Seq<char>, e: FsEntry) -> Seq<Seq<char>>
    decreases e,
{
    if is_dot_name(entry_name(e)) {
        Seq::empty()
    } else {
        match e {
            FsEntry::File { name } => if eligible_name(name@) {
                seq![join_path(prefix, name@)]
            } else {
                Seq::empty()
            },
            FsEntry::Dir { name, entries } => if name@ == "node_modules"@ {
                Seq::empty()
            } else {
                walk_entries_spec(join_path(prefix, name@), entries@)
            },
        }
    }
}

/// The paths the walk of a sequence of sibling entries yields, in order.
pub open spec fn walk_entries_spec(prefix: Seq<char>, s: Seq<FsEntry>) -> Seq<Seq<char>>
    decreases s,
{
    if s.len() == 0 {
        Seq::empty()
    } else {
        walk_spec(prefix, s[0]) + walk_entries_spec(prefix, s.drop_first())
    }
}

/// A pruned entry yields nothing: no path under a dot-named entry or under a
/// directory named `node_modules` is ever walked, whatever extensions match
/// inside it. Since the walk applies this rule at every node it reaches, no
/// file anywhere inside such a subtree is yielded.
pub proof fn lemma_pruned_entry_yields_nothing(prefix: Seq<char>, e: FsEntry)
    requires
        is_dot_name(entry_name(e)) || (e is Dir && entry_name(e) == "node_modules"@),
    ensures
        walk_spec(prefix, e) == Seq::<Seq<char>>::empty(),
{
}

/// A name with an eligible extension keeps it after a prefix is joined on.
proof fn lemma_join_keeps_ext(prefix: Seq<char>, name: Seq<char>, ext: Seq<char>)
    requires
        crate::classify::has_ext(name, ext),
    ensures
        crate::classify::has_ext(join_path(prefix, name), ext),
{
    let j = join_path(prefix, name);
    if prefix.len() > 0 {
        reveal_strlit("/");
        assert(j.len() == prefix.len() + 1 + name.len());
        assert forall|k: int| 0 <= k < name.len() implies j[j.len() - name.len() + k] == name[k] by {
            assert(j[prefix.len() + 1 + k] == name[k]);
        }
        assert(j.subrange(j.len() - ext.len(), j.len() as int) =~= name.subrange(
            name.len() - ext.len(),
            name.len() as int,
        ));
    }
}

/// Every path the walk yields is that of an eligible source file: the walk
/// never hands over a file with a non-matching extension.
pub proof fn lemma_walk_yields_only_eligible(prefix: Seq<char>, e: FsEntry)
    ensures
        forall|i: int|
            0 <= i < walk_spec(prefix, e).len() ==> eligible_name(#[trigger] walk_spec(prefix, e)[i]),
    decreases e, 1int,
{
    if !is_dot_name(entry_name(e)) {
        match e {
            FsEntry::File { name } => {
                if eligible_name(name@) {
                    if crate::classify::has_ext(name@, "js"@) {
                        lemma_join_keeps_ext(prefix, name@, "js"@);
                    }
                    if crate::classify::has_ext(name@, "jsx"@) {
                        lemma_join_keeps_ext(prefix, name@, "jsx"@);
                    }
                    if crate::classify::has_ext(name@, "ts"@) {
                        lemma_join_keeps_ext(prefix, name@, "ts"@);
                    }
                    if crate::classify::has_ext(name@, "tsx"@) {
                        lemma_join_keeps_ext(prefix, name@, "tsx"@);
                    }
                    assert(eligible_name(join_path(prefix, name@)));
                    assert forall|i: int| 0 <= i < walk_spec(prefix, e).len() implies eligible_name(
                        #[trigger] walk_spec(prefix, e)[i],
                    ) by {
                        assert(walk_spec(prefix, e)[i] == join_path(prefix, name@));
                    }
                }
            },
            FsEntry::Dir { name, entries } => {
                if name@ != "node_modules"@ {
                    let j = join_path(prefix, name@);
                    lemma_walk_entries_yields_only_eligible(j, entries@);
                    assert(walk_spec(prefix, e) == walk_entries_spec(j, entries@));
                    assert forall|i: int| 0 <= i < walk_spec(prefix, e).len() implies eligible_name(
                        #[trigger] walk_spec(prefix, e)[i],
                    ) by {
                        assert(walk_spec(prefix, e)[i] == walk_entries_spec(j, entries@)[i]);
                    }
                }
            },
        }
    }
}

proof fn lemma_walk_entries_yields_only_eligible(prefix: Seq<char>, s: Seq<FsEntry>)
    ensures
        forall|i: int|
            0 <= i < walk_entries_spec(prefix, s).len() ==> eligible_name(
                #[trigger] walk_entries_spec(prefix, s)[i],
            ),
    decreases s, 0int,
{
    if s.len() > 0 {
        lemma_walk_yields_only_eligible(prefix, s[0]);
        lemma_walk_entries_yields_only_eligible(prefix, s.drop_first());
        assert forall|i: int| 0 <= i < walk_entries_spec(prefix, s).len() implies eligible_name(
            #[trigger] walk_entries_spec(prefix, s)[i],
        ) by {
            let head = walk_spec(prefix, s[0]);
            let tail = walk_entries_spec(prefix, s.drop_first());
            if i < head.len() {
                assert(walk_entries_spec(prefix, s)[i] == head[i]);
            } else {
                assert(walk_entries_spec(prefix, s)[i] == tail[i - head.len()]);
            }
        }
    }
}

fn join_path_exec(prefix: &str, name: &str) -> (r: String)
    ensures
        r@ == join_path(prefix@, name@),
{
    if prefix.unicode_len() == 0 {
        name.to_owned()
    } else {
        String::from_str(prefix).concat("/").concat(name)
    }
}

/// Walk one modelled filesystem entry and collect the paths of the eligible
/// source files under it, in walk order.
pub fn walk_tree(prefix: &str, entry: &FsEntry) -> (r: Vec<String>)
    ensures
        names_view(r) == walk_spec(prefix@, *entry),
{
    let mut out: Vec<String> = Vec::new();
    walk_into(prefix, entry, &mut out);
    proof {
        assert(Seq::<Seq<char>>::empty() + walk_spec(prefix@, *entry) =~= walk_spec(
            prefix@,
            *entry,
        ));
        assert(names_view(out) =~= walk_spec(prefix@, *entry));
    }
    out
}

fn walk_into(prefix: &str, e: &FsEntry, out: &mut Vec<String>)
    ensures
        names_view(*final(out)) == names_view(*old(out)) + walk_spec(prefix@, *e),
    decreases *e, 1int,
{
    let name: &String = match e {
        FsEntry::Dir { name, .. } => name,
        FsEntry::File { name } => name,
    };
    if name.as_str().unicode_len() > 0 && name.as_str().get_char(0) == '.' {
        proof {
            assert(names_view(*out) =~= names_view(*out) + Seq::<Seq<char>>::empty());
        }
        return;
    }
    match e {
        FsEntry::File { name } => {
            if should_process_file(name.as_str()) {
                let ghost out0 = out@;
                let p = join_path_exec(prefix, name.as_str());
                let ghost pv = p@;
                out.push(p);
                proof {
                    assert(names_view(*out) =~= names_view(*old(out)).push(pv));
                    assert(names_view(*old(out)) + walk_spec(prefix@, *e) =~= names_view(
                        *old(out),
                    ).push(pv));
                }
            } else {
                proof {
                    assert(names_view(*out) =~= names_view(*out) + Seq::<Seq<char>>::empty());
                }
            }
        },
        FsEntry::Dir { name, entries } => {
            if str_eq(name.as_str(), "node_modules") {
                proof {
                    assert(names_view(*out) =~= names_view(*out) + Seq::<Seq<char>>::empty());
                }
                return;
            }
            let joined = join_path_exec(prefix, name.as_str());
            walk_over(joined.as_str(), entries, 0, out);
            proof {
                assert(entries@.subrange(0, entries@.len() as int) =~= entries@);
            }
        },
    }
}

fn walk_over(prefix: &str, entries: &Vec<FsEntry>, i: usize, out: &mut Vec<String>)
    requires
        i <= entries@.len(),
    ensures
        names_view(*final(out)) == names_view(*old(out)) + walk_entries_spec(
            prefix@,
            entries@.subrange(i as int, entries@.len() as int),
        ),
    decreases *entries, 0int, entries@.len() - i,
{
    let ghost rest = entries@.subrange(i as int, entries@.len() as int);
    if i == entries.len() {
        proof {
            assert(rest =~= Seq::<FsEntry>::empty());
            assert(names_view(*out) =~= names_view(*out) + walk_entries_spec(prefix@, rest));
        }
        return;
    }
    proof {
        assert(rest[0] == entries@[i as int]);
        assert(rest.drop_first() =~= entries@.subrange(i as int + 1, entries@.len() as int));
        assert(decreases_to!(*entries => entries@[i as int]));
    }
    let ghost out0 = names_view(*out);
    walk_into(prefix, &entries[i], out);
    walk_over(prefix, entries, i + 1, out);
    proof {
        assert(names_view(*out) =~= out0 + (walk_spec(prefix@, entries@[i as int])
            + walk_entries_spec(prefix@, rest.drop_first())));
    }
}

} // verus!
