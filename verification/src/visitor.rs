//! The import-extraction visitor. Given the modelled tree of one source file,
//! it walks the nodes in pre-order and collects every module specifier written
//! as a string literal. An `import()` or single-argument `require()` whose
//! argument is not a string literal is an unsupported dynamic specifier: under
//! the fatal policy it aborts the extraction with a diagnostic, under the warn
//! policy it is recorded as a warning and contributes nothing.

use vstd::prelude::*;
use vstd::string::StringExecFns;
use crate::ast::{
    arg_occurrence, dynamic_occs, first_dynamic, kind_occurrences, literal_names, occurrences,
    seq_occurrences, Construct, ImportArg, Node, NodeKind, Occurrence, Span,
};
use crate::text::names_view;

verus! {

broadcast use vstd::seq::axiom_seq_index_decreases, vstd::std_specs::vec::axiom_vec_decreases_to_view;

/// How an unsupported dynamic specifier is handled: abort the whole run, or
/// log a warning and go on.
#[derive(Clone, Copy, Debug, PartialEq, Eq, Structural)]
pub enum Policy {
    Fatal,
    Warn,
}

/// An unsupported dynamic specifier, identified by the file it occurred in,
/// the character span of the offending sub-expression, and the construct it
/// appeared in.
#[derive(Debug)]
pub struct Diagnostic {
    pub file_path: String,
    pub span: Span,
    pub construct: Construct,
}

/// The mathematical value of a diagnostic.
pub struct DiagView {
    pub file_path: Seq<char>,
    pub span: Span,
    pub construct: Construct,
}

impl View for Diagnostic {
    type V = DiagView;

    open spec fn view(&self) -> DiagView {
        DiagView { file_path: self.file_path@, span: self.span, construct: self.construct }
    }
}

/// The diagnostic a dynamic occurrence in a given file gives rise to.
pub open spec fn diag_of(o: Occurrence, path: Seq<char>) -> DiagView {
    match o {
        Occurrence::Dynamic { span, construct } => DiagView { file_path: path, span, construct },
        Occurrence::Name { .. } => DiagView {
            file_path: path,
            span: Span { start: 0, end: 0 },
            construct: Construct::DynamicImport,
        },
    }
}

/// The diagnostics of all dynamic occurrences in a sequence, in order.
pub open spec fn warn_views(occs: Seq<Occurrence>, path: Seq<char>) -> Seq<DiagView> {
    dynamic_occs(occs).map_values(|o: Occurrence| diag_of(o, path))
}

/// The views of a vector of diagnostics.
pub open spec fn diags_view(v: Vec<Diagnostic>) -> Seq<DiagView> {
    v@.map_values(|d: Diagnostic| d@)
}

/// What extracting one source file produced: the specifiers in order of first
/// syntactic encounter, and, under the warn policy, the warnings emitted.
#[derive(Debug)]
pub struct Extraction {
    pub names: Vec<String>,
    pub warnings: Vec<Diagnostic>,
}

/// What the visit of a subtree with occurrence sequence `occs` did to the
/// accumulated names and warnings. On success every literal name was appended;
/// under the warn policy so was every dynamic occurrence's diagnostic, and
/// under the fatal policy success means there was no dynamic occurrence at
/// all. Failure happens exactly under the fatal policy at the first dynamic
/// occurrence, whose diagnostic it carries.
pub open spec fn visit_post(
    policy: Policy,
    path: Seq<char>,
    occs: Seq<Occurrence>,
    names0: Seq<Seq<char>>,
    names1: Seq<Seq<char>>,
    warns0: Seq<DiagView>,
    warns1: Seq<DiagView>,
    r: Result<(), Diagnostic>,
) -> bool {
    match r {
        Ok(_) => {
            &&& names1 == names0 + literal_names(occs)
            &&& (policy is Warn ==> warns1 == warns0 + warn_views(occs, path))
            &&& (policy is Fatal ==> first_dynamic(occs) is None && warns1 == warns0)
        },
        Err(d) => {
            &&& policy is Fatal
            &&& first_dynamic(occs) is Some
            &&& d@ == diag_of(first_dynamic(occs)->Some_0, path)
        },
    }
}

/// What `extract_imports` returns for a tree whose occurrence sequence is
/// `occs`. Success carries the literal names in pre-order and, under the warn
/// policy, one warning per dynamic occurrence; under the fatal policy success
/// is owed exactly when there is no dynamic occurrence, and otherwise the
/// result is the diagnostic of the first one.
pub open spec fn extract_post(
    policy: Policy,
    path: Seq<char>,
    occs: Seq<Occurrence>,
    r: Result<Extraction, Diagnostic>,
) -> bool {
    match r {
        Ok(e) => {
            &&& names_view(e.names) == literal_names(occs)
            &&& diags_view(e.warnings) == if policy is Warn {
                warn_views(occs, path)
            } else {
                Seq::<DiagView>::empty()
            }
            &&& (policy is Fatal ==> first_dynamic(occs) is None)
        },
        Err(d) => {
            &&& policy is Fatal
            &&& first_dynamic(occs) is Some
            &&& d@ == diag_of(first_dynamic(occs)->Some_0, path)
        },
    }
}

/// Appending one diagnostic appends its view.
proof fn lemma_diags_push(v: Seq<Diagnostic>, d: Diagnostic)
    ensures
        v.push(d).map_values(|x: Diagnostic| x@) == v.map_values(|x: Diagnostic| x@).push(d@),
{
    assert(v.push(d).map_values(|x: Diagnostic| x@) =~= v.map_values(|x: Diagnostic| x@).push(
        d@,
    ));
}

/// Appending one name appends its characters.
proof fn lemma_names_push(v: Seq<String>, s: String)
    ensures
        v.push(s).map_values(|x: String| x@) == v.map_values(|x: String| x@).push(s@),
{
    assert(v.push(s).map_values(|x: String| x@) =~= v.map_values(|x: String| x@).push(s@));
}

/// The warnings of a split occurrence sequence are the warnings of the parts.
proof fn lemma_warn_views_concat(a: Seq<Occurrence>, b: Seq<Occurrence>, path: Seq<char>)
    ensures
        warn_views(a + b, path) == warn_views(a, path) + warn_views(b, path),
{
    crate::ast::lemma_occ_concat(a, b);
    assert(warn_views(a + b, path) =~= warn_views(a, path) + warn_views(b, path));
}

/// Visit the argument of one import construct.
fn visit_arg(
    arg: &ImportArg,
    construct: Construct,
    file_path: &str,
    policy: Policy,
    names: &mut Vec<String>,
    warnings: &mut Vec<Diagnostic>,
) -> (r: Result<(), Diagnostic>)
    ensures
        visit_post(
            policy,
            file_path@,
            seq![arg_occurrence(*arg, construct)],
            names_view(*old(names)),
            names_view(*final(names)),
            diags_view(*old(warnings)),
            diags_view(*final(warnings)),
            r,
        ),
{
    let ghost occ = arg_occurrence(*arg, construct);
    proof {
        crate::ast::lemma_occ_single(occ);
    }
    match arg {
        ImportArg::Literal { value } => {
            let ghost names0 = names@;
            names.push(value.clone());
            proof {
                lemma_names_push(names0, *value);
                assert(names_view(*names) =~= names_view(*old(names)) + literal_names(seq![occ]));
                assert(warn_views(seq![occ], file_path@) =~= Seq::<DiagView>::empty());
                assert(diags_view(*warnings) =~= diags_view(*old(warnings)) + Seq::<
                    DiagView,
                >::empty());
            }
            Ok(())
        },
        ImportArg::Dynamic { span } => {
            proof {
                assert(warn_views(seq![occ], file_path@) =~= seq![diag_of(occ, file_path@)]);
            }
            let d = Diagnostic { file_path: file_path.to_owned(), span: *span, construct };
            match policy {
                Policy::Warn => {
                    let ghost warns0 = warnings@;
                    let ghost dg = d;
                    warnings.push(d);
                    proof {
                        lemma_diags_push(warns0, dg);
                        assert(diags_view(*warnings) =~= diags_view(*old(warnings)) + warn_views(
                            seq![occ],
                            file_path@,
                        ));
                        assert(names_view(*names) =~= names_view(*old(names)) + literal_names(
                            seq![occ],
                        ));
                    }
                    Ok(())
                },
                Policy::Fatal => {
                    Err(d)
                },
            }
        },
    }
}

/// Visit one node: its own construct, then its children.
fn visit_node(
    n: &Node,
    file_path: &str,
    policy: Policy,
    names: &mut Vec<String>,
    warnings: &mut Vec<Diagnostic>,
) -> (r: Result<(), Diagnostic>)
    ensures
        visit_post(
            policy,
            file_path@,
            occurrences(*n),
            names_view(*old(names)),
            names_view(*final(names)),
            diags_view(*old(warnings)),
            diags_view(*final(warnings)),
            r,
        ),
    decreases *n, 1int,
{
    let ghost own = kind_occurrences(n.kind);
    let ghost kids = seq_occurrences(n.children@);
    proof {
        assert(occurrences(*n) == own + kids);
        crate::ast::lemma_occ_concat(own, kids);
        lemma_warn_views_concat(own, kids, file_path@);
    }
    let ghost names0 = names_view(*names);
    let ghost warns0 = diags_view(*warnings);
    let own_result: Result<(), Diagnostic> = match &n.kind {
        NodeKind::StaticImport { specifier } => {
            let ghost ns = names@;
            names.push(specifier.clone());
            proof {
                crate::ast::lemma_occ_single(Occurrence::Name { value: specifier@ });
                lemma_names_push(ns, *specifier);
                assert(names_view(*names) =~= names0 + literal_names(own));
            }
            Ok(())
        },
        NodeKind::DynamicImport { arg } => {
            visit_arg(arg, Construct::DynamicImport, file_path, policy, names, warnings)
        },
        NodeKind::Require { args } => {
            if args.len() == 1 {
                visit_arg(&args[0], Construct::Require, file_path, policy, names, warnings)
            } else {
                proof {
                    assert(own =~= Seq::<Occurrence>::empty());
                    assert(names_view(*names) =~= names0 + literal_names(own));
                    assert(diags_view(*warnings) =~= warns0 + warn_views(own, file_path@));
                }
                Ok(())
            }
        },
        NodeKind::Other => {
            proof {
                assert(own =~= Seq::<Occurrence>::empty());
                assert(names_view(*names) =~= names0 + literal_names(own));
                assert(diags_view(*warnings) =~= warns0 + warn_views(own, file_path@));
            }
            Ok(())
        },
    };
    if let Err(d) = own_result {
        return Err(d);
    }
    let ghost names1 = names_view(*names);
    let ghost warns1 = diags_view(*warnings);
    let child_result = visit_children(&n.children, 0, file_path, policy, names, warnings);
    proof {
        assert(n.children@.subrange(0, n.children@.len() as int) =~= n.children@);
    }
    match child_result {
        Ok(_) => {
            proof {
                assert(names_view(*names) =~= names0 + literal_names(own + kids));
                if policy is Warn {
                    assert(diags_view(*warnings) =~= warns0 + warn_views(own + kids, file_path@));
                }
            }
            Ok(())
        },
        Err(d) => Err(d),
    }
}

/// Visit the children of a node from position `i` on.
fn visit_children(
    children: &Vec<Node>,
    i: usize,
    file_path: &str,
    policy: Policy,
    names: &mut Vec<String>,
    warnings: &mut Vec<Diagnostic>,
) -> (r: Result<(), Diagnostic>)
    requires
        i <= children@.len(),
    ensures
        visit_post(
            policy,
            file_path@,
            seq_occurrences(children@.subrange(i as int, children@.len() as int)),
            names_view(*old(names)),
            names_view(*final(names)),
            diags_view(*old(warnings)),
            diags_view(*final(warnings)),
            r,
        ),
    decreases *children, 0int, children@.len() - i,
{
    let ghost rest = children@.subrange(i as int, children@.len() as int);
    if i == children.len() {
        proof {
            assert(rest =~= Seq::<Node>::empty());
            assert(seq_occurrences(rest) == Seq::<Occurrence>::empty());
            assert(names_view(*names) =~= names_view(*names) + literal_names(
                Seq::<Occurrence>::empty(),
            ));
            assert(diags_view(*warnings) =~= diags_view(*warnings) + warn_views(
                Seq::<Occurrence>::empty(),
                file_path@,
            ));
        }
        return Ok(());
    }
    let ghost head = occurrences(children@[i as int]);
    let ghost tail = seq_occurrences(children@.subrange(i as int + 1, children@.len() as int));
    proof {
        assert(rest[0] == children@[i as int]);
        assert(rest.drop_first() =~= children@.subrange(i as int + 1, children@.len() as int));
        assert(seq_occurrences(rest) == head + tail);
        crate::ast::lemma_occ_concat(head, tail);
        lemma_warn_views_concat(head, tail, file_path@);
    }
    let ghost names0 = names_view(*names);
    let ghost warns0 = diags_view(*warnings);
    proof {
        assert(decreases_to!(*children => children@[i as int]));
    }
    let r = visit_node(&children[i], file_path, policy, names, warnings);
    if let Err(d) = r {
        return Err(d);
    }
    let r2 = visit_children(children, i + 1, file_path, policy, names, warnings);
    match r2 {
        Ok(_) => {
            proof {
                assert(names_view(*names) =~= names0 + literal_names(head + tail));
                if policy is Warn {
                    assert(diags_view(*warnings) =~= warns0 + warn_views(head + tail, file_path@));
                }
            }
            Ok(())
        },
        Err(d) => Err(d),
    }
}

/// A file whose occurrences are all literal names — static imports and
/// literal sources only — yields exactly those specifiers, one per import, in
/// source order, under either policy, with no warning and no failure.
pub proof fn lemma_all_literals_extract_fully(
    program: Node,
    path: Seq<char>,
    policy: Policy,
    r: Result<Extraction, Diagnostic>,
)
    requires
        forall|i: int| 0 <= i < occurrences(program).len() ==> occurrences(program)[i] is Name,
        extract_post(policy, path, occurrences(program), r),
    ensures
        r is Ok,
        names_view(r->Ok_0.names) == literal_names(occurrences(program)),
        names_view(r->Ok_0.names).len() == occurrences(program).len(),
        forall|i: int|
            0 <= i < occurrences(program).len() ==> names_view(r->Ok_0.names)[i]
                == crate::ast::name_of(occurrences(program)[i]),
        diags_view(r->Ok_0.warnings) == Seq::<DiagView>::empty(),
{
    crate::ast::lemma_all_names(occurrences(program));
    if policy is Warn {
        assert(warn_views(occurrences(program), path) =~= Seq::<DiagView>::empty());
    }
}

/// Extract every module specifier referenced in the tree of one source file,
/// in order of first syntactic encounter: the sources of static imports, and
/// the literal arguments of dynamic `import()` calls and single-argument
/// `require()` calls. A non-literal argument of the latter two is an
/// unsupported dynamic specifier: under `Policy::Warn` it is returned as a
/// warning and contributes no specifier, under `Policy::Fatal` the extraction
/// stops at the first one and returns its diagnostic.
pub fn extract_imports(program: &Node, file_path: &str, policy: Policy) -> (r: Result<
    Extraction,
    Diagnostic,
>)
    ensures
        extract_post(policy, file_path@, occurrences(*program), r),
{
    let mut names: Vec<String> = Vec::new();
    let mut warnings: Vec<Diagnostic> = Vec::new();
    proof {
        assert(names_view(names) =~= Seq::<Seq<char>>::empty());
        assert(diags_view(warnings) =~= Seq::<DiagView>::empty());
    }
    match visit_node(program, file_path, policy, &mut names, &mut warnings) {
        Ok(_) => {
            proof {
                assert(names_view(names) =~= Seq::<Seq<char>>::empty() + literal_names(
                    occurrences(*program),
                ));
                assert(Seq::<Seq<char>>::empty() + literal_names(occurrences(*program))
                    =~= literal_names(occurrences(*program)));
                if policy is Warn {
                    assert(Seq::<DiagView>::empty() + warn_views(occurrences(*program), file_path@)
                        =~= warn_views(occurrences(*program), file_path@));
                }
            }
            Ok(Extraction { names, warnings })
        },
        Err(d) => Err(d),
    }
}

} // verus!
