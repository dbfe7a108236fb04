//! The run driver's decisions: turning the command line into a configuration,
//! folding each file's extraction result into the run's accumulated specifier
//! list, collapsing adjacent duplicates, and rendering the final output lines.
//! The surrounding program performs the filesystem work between these steps
//! and stops the run the moment a step hands it a diagnostic.

use vstd::prelude::*;
use vstd::string::{StrSliceExecFns, StringExecFns};
use crate::ast::{first_dynamic, literal_names, occurrences, Node};
use crate::logger::{log_line, Level, Logger};
use crate::text::{names_view, str_eq, string_eq};
use crate::visitor::{Diagnostic, Extraction, Policy};

verus! {

/// Whether a command-line token is flag-like: it starts with a dash.
pub open spec fn is_flag_token(a: Seq<char>) -> bool {
    a.len() > 0 && a[0] == '-'
}

/// The positional arguments among the tokens: those that are not flag-like,
/// in order.
pub open spec fn positional_args(args: Seq<Seq<char>>) -> Seq<Seq<char>>
    decreases args.len(),
{
    if args.len() == 0 {
        Seq::empty()
    } else {
        positional_args(args.drop_last()) + if is_flag_token(args.last()) {
            Seq::empty()
        } else {
            seq![args.last()]
        }
    }
}

/// Whether some token asks for the warn policy.
pub open spec fn warn_requested(args: Seq<Seq<char>>) -> bool {
    exists|i: int|
        0 <= i < args.len() && (args[i] == "-i"@ || args[i] == "--ignore-dynamic-error"@)
}

/// The policy the tokens select: warn when asked for, fatal by default.
pub open spec fn spec_policy(args: Seq<Seq<char>>) -> Policy {
    if warn_requested(args) {
        Policy::Warn
    } else {
        Policy::Fatal
    }
}

/// The run's configuration: the input paths in argument order, and the
/// dynamic-error policy.
#[derive(Debug)]
pub struct Config {
    pub files: Vec<String>,
    pub policy: Policy,
}

/// A fatal configuration error.
#[derive(Clone, Copy, Debug, PartialEq, Eq, Structural)]
pub enum ConfigError {
    MissingInputs,
}

proof fn lemma_warn_requested_step(s: Seq<Seq<char>>, i: int)
    requires
        0 <= i < s.len(),
    ensures
        warn_requested(s.subrange(0, i + 1)) <==> (warn_requested(s.subrange(0, i)) || s[i]
            == "-i"@ || s[i] == "--ignore-dynamic-error"@),
{
    let a = s.subrange(0, i);
    let b = s.subrange(0, i + 1);
    if warn_requested(a) {
        let j = choose|j: int| 0 <= j < a.len() && (a[j] == "-i"@ || a[j] == "--ignore-dynamic-error"@);
        assert(b[j] == a[j]);
    }
    if s[i] == "-i"@ || s[i] == "--ignore-dynamic-error"@ {
        assert(b[i] == s[i]);
    }
    if warn_requested(b) {
        let j = choose|j: int| 0 <= j < b.len() && (b[j] == "-i"@ || b[j] == "--ignore-dynamic-error"@);
        if j < i {
            assert(a[j] == b[j]);
        } else {
            assert(b[j] == s[i]);
        }
    }
}

/// Parse the command-line tokens after the program name. Tokens that do not
/// start with a dash are input paths, in order; `-i` or
/// `--ignore-dynamic-error` selects the warn policy; any other dash-token is
/// silently ignored. With no input path at all the configuration is rejected
/// outright — before anything touches the filesystem.
pub fn parse_args(args: &Vec<String>) -> (r: Result<Config, ConfigError>)
    ensures
        match r {
            Result::Err(e) => positional_args(names_view(*args)).len() == 0 && e
                == ConfigError::MissingInputs,
            Result::Ok(c) => {
                &&& positional_args(names_view(*args)).len() > 0
                &&& names_view(c.files) == positional_args(names_view(*args))
                &&& c.policy == spec_policy(names_view(*args))
            },
        },
{
    let ghost av = names_view(*args);
    let mut files: Vec<String> = Vec::new();
    let mut warn = false;
    let mut i: usize = 0;
    proof {
        assert(av.subrange(0, 0) =~= Seq::<Seq<char>>::empty());
        assert(names_view(files) =~= Seq::<Seq<char>>::empty());
    }
    while i < args.len()
        invariant
            i <= args@.len(),
            av == names_view(*args),
            av.len() == args@.len(),
            names_view(files) == positional_args(av.subrange(0, i as int)),
            warn == warn_requested(av.subrange(0, i as int)),
        decreases args@.len() - i,
    {
        let arg = &args[i];
        proof {
            assert(av[i as int] == arg@);
        }
        let flag_like = arg.as_str().unicode_len() > 0 && arg.as_str().get_char(0) == '-';
        let ghost files0 = files@;
        if !flag_like {
            files.push(arg.clone());
        }
        if str_eq(arg.as_str(), "-i") || str_eq(arg.as_str(), "--ignore-dynamic-error") {
            warn = true;
        }
        proof {
            let pre = av.subrange(0, i as int);
            let pre1 = av.subrange(0, i as int + 1);
            assert(pre1.drop_last() =~= pre);
            assert(pre1.last() == av[i as int]);
            lemma_warn_requested_step(av, i as int);
            if !flag_like {
                assert(names_view(files) =~= files0.map_values(|s: String| s@).push(arg@));
                assert(names_view(files) =~= positional_args(pre) + seq![arg@]);
            } else {
                assert(names_view(files) =~= positional_args(pre) + Seq::<Seq<char>>::empty());
            }
        }
        i = i + 1;
    }
    proof {
        assert(av.subrange(0, args@.len() as int) =~= av);
    }
    if files.len() == 0 {
        proof {
            assert(names_view(files).len() == 0);
        }
        Err(ConfigError::MissingInputs)
    } else {
        Ok(Config { files, policy: if warn { Policy::Warn } else { Policy::Fatal } })
    }
}

/// Fold one file's extraction result into the run's accumulated specifier
/// list: on success append the file's specifiers and go on; on a diagnostic
/// leave the list alone and hand the diagnostic up, which ends the run.
pub fn absorb_result(names: &mut Vec<String>, r: Result<Extraction, Diagnostic>) -> (halt: Option<
    Diagnostic,
>)
    ensures
        match r {
            Result::Ok(e) => halt is None && names_view(*final(names)) == names_view(*old(names))
                + names_view(e.names),
            Result::Err(d) => halt == Some(d) && *final(names) == *old(names),
        },
{
    match r {
        Ok(mut e) => {
            let ghost en = e.names@;
            names.append(&mut e.names);
            proof {
                assert(names_view(*names) =~= names_view(*old(names)) + en.map_values(
                    |s: String| s@,
                ));
            }
            None
        },
        Err(d) => Some(d),
    }
}

/// The aggregated list with immediately-adjacent repeats collapsed: each run
/// of equal consecutive entries keeps its first element; a repeat after an
/// intervening distinct entry is preserved.
pub open spec fn dedup_adjacent_spec(s: Seq<Seq<char>>) -> Seq<Seq<char>>
    decreases s.len(),
{
    if s.len() == 0 {
        Seq::empty()
    } else {
        let d = dedup_adjacent_spec(s.drop_last());
        if d.len() > 0 && d.last() == s.last() {
            d
        } else {
            d.push(s.last())
        }
    }
}

/// Collapse immediately-adjacent repeated specifiers.
pub fn dedup_adjacent(v: &Vec<String>) -> (r: Vec<String>)
    ensures
        names_view(r) == dedup_adjacent_spec(names_view(*v)),
{
    let ghost nv = names_view(*v);
    let mut out: Vec<String> = Vec::new();
    let mut i: usize = 0;
    proof {
        assert(nv.subrange(0, 0) =~= Seq::<Seq<char>>::empty());
        assert(names_view(out) =~= Seq::<Seq<char>>::empty());
    }
    while i < v.len()
        invariant
            i <= v@.len(),
            nv == names_view(*v),
            nv.len() == v@.len(),
            names_view(out) == dedup_adjacent_spec(nv.subrange(0, i as int)),
        decreases v@.len() - i,
    {
        proof {
            assert(nv[i as int] == v@[i as int]@);
        }
        let ghost out0 = out@;
        let skip = out.len() > 0 && string_eq(&out[out.len() - 1], &v[i]);
        proof {
            if out.len() > 0 {
                assert(names_view(out).last() == out@[out@.len() - 1]@);
            }
        }
        if !skip {
            out.push(v[i].clone());
            proof {
                assert(names_view(out) =~= out0.map_values(|s: String| s@).push(nv[i as int]));
            }
        }
        proof {
            let pre = nv.subrange(0, i as int);
            let pre1 = nv.subrange(0, i as int + 1);
            assert(pre1.drop_last() =~= pre);
            assert(pre1.last() == nv[i as int]);
        }
        i = i + 1;
    }
    proof {
        assert(nv.subrange(0, v@.len() as int) =~= nv);
    }
    out
}

/// After the collapse no two neighbouring entries are equal: only
/// immediately-adjacent repeats were removed, and none remain.
pub proof fn lemma_dedup_no_adjacent_repeats(s: Seq<Seq<char>>)
    ensures
        forall|i: int|
            0 <= i < dedup_adjacent_spec(s).len() - 1 ==> #[trigger] dedup_adjacent_spec(s)[i]
                != dedup_adjacent_spec(s)[i + 1],
    decreases s.len(),
{
    if s.len() > 0 {
        lemma_dedup_no_adjacent_repeats(s.drop_last());
        let d = dedup_adjacent_spec(s.drop_last());
        let d1 = dedup_adjacent_spec(s);
        if !(d.len() > 0 && d.last() == s.last()) {
            assert(d1 == d.push(s.last()));
            assert forall|i: int| 0 <= i < d1.len() - 1 implies #[trigger] d1[i] != d1[i + 1] by {
                if i + 1 < d.len() {
                    assert(d1[i] == d[i] && d1[i + 1] == d[i + 1]);
                } else {
                    assert(i + 1 == d.len());
                    assert(d1[i] == d.last() && d1[i + 1] == s.last());
                }
            }
        }
    }
}

/// The lines the run prints at the end: one informational line when nothing
/// was found; otherwise a heading followed by one `- <specifier>` line per
/// surviving entry, in order.
pub fn render_output(names: &Vec<String>) -> (r: Vec<String>)
    ensures
        names_view(*names).len() == 0 ==> names_view(r) == seq![
            log_line(Level::Info, "No packages found"@),
        ],
        names_view(*names).len() > 0 ==> {
            &&& r@.len() == names_view(*names).len() + 1
            &&& r@[0]@ == log_line(Level::Info, "Found packages:"@)
            &&& forall|i: int|
                0 <= i < names_view(*names).len() ==> r@[i + 1]@ == "- "@ + names_view(*names)[i]
        },
{
    let ghost nv = names_view(*names);
    let mut out: Vec<String> = Vec::new();
    if names.len() == 0 {
        out.push(Logger::info("No packages found"));
        proof {
            assert(names_view(out) =~= seq![log_line(Level::Info, "No packages found"@)]);
        }
        return out;
    }
    out.push(Logger::info("Found packages:"));
    let mut i: usize = 0;
    while i < names.len()
        invariant
            i <= names@.len(),
            nv == names_view(*names),
            nv.len() == names@.len(),
            out@.len() == i + 1,
            out@[0]@ == log_line(Level::Info, "Found packages:"@),
            forall|j: int| 0 <= j < i ==> out@[j + 1]@ == "- "@ + nv[j],
        decreases names@.len() - i,
    {
        proof {
            assert(nv[i as int] == names@[i as int]@);
        }
        let line = String::from_str("- ").concat(names[i].as_str());
        out.push(line);
        i = i + 1;
    }
    out
}

/// What a whole run computes over the already-modelled trees of its files, in
/// visit order: the concatenation of every file's literal names, unless the
/// fatal policy meets a file with a dynamic occurrence, in which case the run
/// stops at the first such file and reports its index.
pub open spec fn run_outcome(files: Seq<Node>, policy: Policy) -> Result<Seq<Seq<char>>, int>
    decreases files.len(),
{
    if files.len() == 0 {
        Result::Ok(Seq::empty())
    } else if policy is Fatal && first_dynamic(occurrences(files[0])) is Some {
        Result::Err(0)
    } else {
        match run_outcome(files.drop_first(), policy) {
            Result::Ok(names) => Result::Ok(literal_names(occurrences(files[0])) + names),
            Result::Err(j) => Result::Err(j + 1),
        }
    }
}

/// The concatenation of every file's literal names, in visit order.
pub open spec fn all_names(files: Seq<Node>) -> Seq<Seq<char>>
    decreases files.len(),
{
    if files.len() == 0 {
        Seq::empty()
    } else {
        literal_names(occurrences(files[0])) + all_names(files.drop_first())
    }
}

/// Under the fatal policy, one unsupported dynamic specifier anywhere aborts
/// the whole run: the run fails exactly when some file holds a dynamic
/// occurrence, and it stops at the first such file — no later file is
/// processed and nothing is printed.
pub proof fn lemma_fatal_policy_stops_run(files: Seq<Node>)
    ensures
        run_outcome(files, Policy::Fatal) is Err <==> exists|i: int|
            0 <= i < files.len() && first_dynamic(occurrences(#[trigger] files[i])) is Some,
        run_outcome(files, Policy::Fatal) is Err ==> {
            let j = run_outcome(files, Policy::Fatal)->Err_0;
            &&& 0 <= j < files.len()
            &&& first_dynamic(occurrences(files[j])) is Some
            &&& forall|k: int|
                0 <= k < j ==> first_dynamic(occurrences(#[trigger] files[k])) is None
        },
    decreases files.len(),
{
    if files.len() == 0 {
    } else {
        let tail = files.drop_first();
        lemma_fatal_policy_stops_run(tail);
        assert(forall|m: int| 0 <= m < tail.len() ==> tail[m] == files[m + 1]);
        if first_dynamic(occurrences(files[0])) is Some {
            assert(first_dynamic(occurrences(files[0])) is Some);
        } else {
            if run_outcome(tail, Policy::Fatal) is Err {
                let jt = run_outcome(tail, Policy::Fatal)->Err_0;
                assert(run_outcome(files, Policy::Fatal)->Err_0 == jt + 1);
                assert(tail[jt] == files[jt + 1]);
                assert(first_dynamic(occurrences(files[jt + 1])) is Some);
                assert forall|k: int| 0 <= k < jt + 1 implies first_dynamic(
                    occurrences(#[trigger] files[k]),
                ) is None by {
                    if k > 0 {
                        assert(tail[k - 1] == files[k]);
                    }
                }
            } else {
                if exists|i: int|
                    0 <= i < files.len() && first_dynamic(
                        occurrences(#[trigger] files[i]),
                    ) is Some {
                    let i = choose|i: int|
                        0 <= i < files.len() && first_dynamic(
                            occurrences(#[trigger] files[i]),
                        ) is Some;
                    assert(i > 0);
                    assert(tail[i - 1] == files[i]);
                    assert(exists|m: int|
                        0 <= m < tail.len() && first_dynamic(
                            occurrences(#[trigger] tail[m]),
                        ) is Some);
                }
            }
        }
    }
}

/// Under the warn policy the run always completes, and every file contributes
/// its literal names; dynamic occurrences contribute nothing.
pub proof fn lemma_warn_policy_completes_run(files: Seq<Node>)
    ensures
        run_outcome(files, Policy::Warn) == Result::<Seq<Seq<char>>, int>::Ok(all_names(files)),
    decreases files.len(),
{
    if files.len() > 0 {
        lemma_warn_policy_completes_run(files.drop_first());
    }
}

} // verus!
