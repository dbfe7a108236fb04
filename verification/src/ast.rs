//! The modelled syntax tree the import visitor walks. A parsed source file is
//! represented as a tree of nodes; each node carries the one piece of
//! information the extraction cares about — whether it is a static import, a
//! dynamic `import()` call, a call to `require`, or anything else — together
//! with its child subtrees in source order.
//!
//! The specification side flattens a tree into its pre-order sequence of
//! occurrences: literal specifier names and unsupported dynamic specifiers.
//! Every contract of the visitor is stated over that sequence.

use vstd::prelude::*;

verus! {

broadcast use vstd::seq::axiom_seq_index_decreases, vstd::std_specs::vec::axiom_vec_decreases_to_view;

/// Character offsets of a sub-expression in its source file.
#[derive(Clone, Copy, Debug, PartialEq, Eq, Structural)]
pub struct Span {
    pub start: u32,
    pub end: u32,
}

/// Which import construct an unsupported dynamic specifier occurred in.
#[derive(Clone, Copy, Debug, PartialEq, Eq, Structural)]
pub enum Construct {
    DynamicImport,
    Require,
}

/// The argument position of a dynamic `import()` or `require()` call: either a
/// string literal, or some other expression, identified by its span.
pub enum ImportArg {
    Literal { value: String },
    Dynamic { span: Span },
}

/// What a node of the tree is, as far as extraction is concerned.
pub enum NodeKind {
    /// A static import declaration; its source is always a literal.
    StaticImport { specifier: String },
    /// A dynamic `import(...)` expression with its single source argument.
    DynamicImport { arg: ImportArg },
    /// A call to `require` with its arguments. Only a call with exactly one
    /// argument is an import construct; any other arity is ignored.
    Require { args: Vec<ImportArg> },
    /// Any other syntax: traversed for children, contributes nothing.
    Other,
}

/// One node of the modelled tree: its kind and its children in source order.
pub struct Node {
    pub kind: NodeKind,
    pub children: Vec<Node>,
}

/// What one visited construct contributes: a literal specifier name, or an
/// unsupported dynamic specifier at a span.
pub enum Occurrence {
    Name { value: Seq<char> },
    Dynamic { span: Span, construct: Construct },
}

/// The occurrence contributed by one argument of an import construct.
pub open spec fn arg_occurrence(a: ImportArg, construct: Construct) -> Occurrence {
    match a {
        ImportArg::Literal { value } => Occurrence::Name { value: value@ },
        ImportArg::Dynamic { span } => Occurrence::Dynamic { span, construct },
    }
}

/// The occurrences contributed by a node's own kind, before its children.
pub open spec fn kind_occurrences(k: NodeKind) -> Seq<Occurrence> {
    match k {
        NodeKind::StaticImport { specifier } => seq![Occurrence::Name { value: specifier@ }],
        NodeKind::DynamicImport { arg } => seq![arg_occurrence(arg, Construct::DynamicImport)],
        NodeKind::Require { args } => if args@.len() == 1 {
            seq![arg_occurrence(args@[0], Construct::Require)]
        } else {
            Seq::empty()
        },
        NodeKind::Other => Seq::empty(),
    }
}

/// The pre-order sequence of occurrences of a whole subtree: the node's own
/// contribution, then those of its children, left to right.
pub open spec fn occurrences(n: Node) -> Seq<Occurrence>
    decreases n,
{
    kind_occurrences(n.kind) + seq_occurrences(n.children@)
}

/// The occurrences of a sequence of sibling subtrees, in order.
pub open spec fn seq_occurrences(s: Seq<Node>) -> Seq<Occurrence>
    decreases s,
{
    if s.len() == 0 {
        Seq::empty()
    } else {
        occurrences(s[0]) + seq_occurrences(s.drop_first())
    }
}

/// The literal specifier names among a sequence of occurrences, in order.
pub open spec fn literal_names(occs: Seq<Occurrence>) -> Seq<Seq<char>>
    decreases occs.len(),
{
    if occs.len() == 0 {
        Seq::empty()
    } else {
        (match occs[0] {
            Occurrence::Name { value } => seq![value],
            Occurrence::Dynamic { .. } => Seq::empty(),
        }) + literal_names(occs.drop_first())
    }
}

/// The unsupported dynamic specifiers among a sequence of occurrences, in order.
pub open spec fn dynamic_occs(occs: Seq<Occurrence>) -> Seq<Occurrence>
    decreases occs.len(),
{
    if occs.len() == 0 {
        Seq::empty()
    } else {
        (match occs[0] {
            Occurrence::Name { .. } => Seq::empty(),
            Occurrence::Dynamic { .. } => seq![occs[0]],
        }) + dynamic_occs(occs.drop_first())
    }
}

/// The first unsupported dynamic specifier among a sequence of occurrences.
pub open spec fn first_dynamic(occs: Seq<Occurrence>) -> Option<Occurrence>
    decreases occs.len(),
{
    if occs.len() == 0 {
        None
    } else {
        match occs[0] {
            Occurrence::Name { .. } => first_dynamic(occs.drop_first()),
            Occurrence::Dynamic { .. } => Some(occs[0]),
        }
    }
}

/// The name a literal occurrence carries.
pub open spec fn name_of(o: Occurrence) -> Seq<char> {
    match o {
        Occurrence::Name { value } => value,
        Occurrence::Dynamic { .. } => Seq::empty(),
    }
}

/// A sequence of occurrences that are all literal names — a file with only
/// static imports and literal sources — has no dynamic occurrence, and its
/// names are exactly its occurrences' values, one each, in order.
pub proof fn lemma_all_names(occs: Seq<Occurrence>)
    requires
        forall|i: int| 0 <= i < occs.len() ==> occs[i] is Name,
    ensures
        first_dynamic(occs) is None,
        dynamic_occs(occs) == Seq::<Occurrence>::empty(),
        literal_names(occs).len() == occs.len(),
        forall|i: int| 0 <= i < occs.len() ==> literal_names(occs)[i] == name_of(occs[i]),
    decreases occs.len(),
{
    if occs.len() == 0 {
        assert(dynamic_occs(occs) =~= Seq::<Occurrence>::empty());
    } else {
        let tail = occs.drop_first();
        assert(forall|i: int| 0 <= i < tail.len() ==> tail[i] == occs[i + 1]);
        lemma_all_names(tail);
        assert(occs[0] is Name);
        assert(dynamic_occs(occs) =~= Seq::<Occurrence>::empty());
        assert(literal_names(occs) =~= seq![name_of(occs[0])] + literal_names(tail));
        assert(forall|i: int|
            0 <= i < occs.len() ==> literal_names(occs)[i] == name_of(occs[i]));
    }
}

/// A dynamic import whose argument is a string literal contributes exactly
/// what a static import of that value contributes: with the same children,
/// the two trees have the same occurrence sequence, and every contract of the
/// visitor is stated over that sequence alone.
pub proof fn lemma_dynamic_literal_like_static(value: String, children: Vec<Node>)
    ensures
        occurrences(
            Node { kind: NodeKind::DynamicImport { arg: ImportArg::Literal { value } }, children },
        ) == occurrences(Node { kind: NodeKind::StaticImport { specifier: value }, children }),
{
}

/// Splitting a sequence of occurrences splits its names, its dynamic
/// occurrences, and its first dynamic occurrence accordingly.
pub proof fn lemma_occ_concat(a: Seq<Occurrence>, b: Seq<Occurrence>)
    ensures
        literal_names(a + b) == literal_names(a) + literal_names(b),
        dynamic_occs(a + b) == dynamic_occs(a) + dynamic_occs(b),
        first_dynamic(a + b) == if first_dynamic(a) is Some {
            first_dynamic(a)
        } else {
            first_dynamic(b)
        },
    decreases a.len(),
{
    if a.len() == 0 {
        assert(a + b =~= b);
        assert(literal_names(a) =~= Seq::<Seq<char>>::empty());
        assert(literal_names(a + b) =~= Seq::<Seq<char>>::empty() + literal_names(b));
        assert(dynamic_occs(a + b) =~= Seq::<Occurrence>::empty() + dynamic_occs(b));
    } else {
        assert((a + b)[0] == a[0]);
        assert((a + b).drop_first() =~= a.drop_first() + b);
        lemma_occ_concat(a.drop_first(), b);
        assert(literal_names(a + b) =~= literal_names(a) + literal_names(b));
        assert(dynamic_occs(a + b) =~= dynamic_occs(a) + dynamic_occs(b));
    }
}

/// Names, dynamic occurrences, and the first dynamic occurrence of a singleton.
pub proof fn lemma_occ_single(o: Occurrence)
    ensures
        literal_names(seq![o]) == (match o {
            Occurrence::Name { value } => seq![value],
            Occurrence::Dynamic { .. } => Seq::<Seq<char>>::empty(),
        }),
        dynamic_occs(seq![o]) == (match o {
            Occurrence::Name { .. } => Seq::<Occurrence>::empty(),
            Occurrence::Dynamic { .. } => seq![o],
        }),
        first_dynamic(seq![o]) == (match o {
            Occurrence::Name { .. } => None::<Occurrence>,
            Occurrence::Dynamic { .. } => Some(o),
        }),
{
    let s = seq![o];
    assert(s[0] == o);
    assert(s.drop_first() =~= Seq::<Occurrence>::empty());
    assert(literal_names(Seq::<Occurrence>::empty()) == Seq::<Seq<char>>::empty());
    assert(dynamic_occs(Seq::<Occurrence>::empty()) == Seq::<Occurrence>::empty());
    assert(first_dynamic(Seq::<Occurrence>::empty()) == None::<Occurrence>);
    match o {
        Occurrence::Name { value } => {
            assert(literal_names(s) =~= seq![value]);
            assert(dynamic_occs(s) =~= Seq::<Occurrence>::empty());
        },
        Occurrence::Dynamic { .. } => {
            assert(literal_names(s) =~= Seq::<Seq<char>>::empty());
            assert(dynamic_occs(s) =~= seq![o]);
        },
    }
}

} // verus!
