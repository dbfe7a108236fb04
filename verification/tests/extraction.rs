use js_visitor::ast::{Construct, ImportArg, Node, NodeKind, Span};
use js_visitor::visitor::{extract_imports, Policy};

fn leaf(kind: NodeKind) -> Node {
    Node { kind, children: vec![] }
}

fn other(children: Vec<Node>) -> Node {
    Node { kind: NodeKind::Other, children }
}

fn static_import(name: &str) -> Node {
    leaf(NodeKind::StaticImport { specifier: String::from(name) })
}

fn dynamic_import_literal(name: &str) -> Node {
    leaf(NodeKind::DynamicImport { arg: ImportArg::Literal { value: String::from(name) } })
}

fn dynamic_import_dynamic(start: u32, end: u32) -> Node {
    leaf(NodeKind::DynamicImport { arg: ImportArg::Dynamic { span: Span { start, end } } })
}

fn require_literal(name: &str) -> Node {
    leaf(NodeKind::Require { args: vec![ImportArg::Literal { value: String::from(name) }] })
}

fn require_dynamic(start: u32, end: u32) -> Node {
    leaf(NodeKind::Require { args: vec![ImportArg::Dynamic { span: Span { start, end } }] })
}

fn names(v: &[&str]) -> Vec<String> {
    v.iter().map(|s| String::from(*s)).collect()
}

#[test]
fn test_static_imports_in_order_either_policy() {
    let build = || {
        other(vec![
            static_import("alpha"),
            other(vec![static_import("beta")]),
            static_import("gamma"),
        ])
    };
    for policy in [Policy::Fatal, Policy::Warn] {
        let r = extract_imports(&build(), "a.js", policy).unwrap();
        assert_eq!(r.names, names(&["alpha", "beta", "gamma"]));
        assert!(r.warnings.is_empty());
    }
}

#[test]
fn test_dynamic_literal_yields_like_static() {
    let a = other(vec![dynamic_import_literal("pkg")]);
    let b = other(vec![static_import("pkg")]);
    for policy in [Policy::Fatal, Policy::Warn] {
        let ra = extract_imports(&a, "a.js", policy).unwrap();
        let rb = extract_imports(&b, "a.js", policy).unwrap();
        assert_eq!(ra.names, rb.names);
        assert_eq!(ra.names, names(&["pkg"]));
    }
}

#[test]
fn test_require_literal_yields() {
    let r = extract_imports(&require_literal("x"), "a.js", Policy::Fatal).unwrap();
    assert_eq!(r.names, names(&["x"]));
}

#[test]
fn test_require_identifier_is_unsupported() {
    let program = require_dynamic(8, 9);
    let err = extract_imports(&program, "b.js", Policy::Fatal).unwrap_err();
    assert_eq!(err.file_path, String::from("b.js"));
    assert_eq!(err.span, Span { start: 8, end: 9 });
    assert_eq!(err.construct, Construct::Require);

    let ok = extract_imports(&program, "b.js", Policy::Warn).unwrap();
    assert!(ok.names.is_empty());
    assert_eq!(ok.warnings.len(), 1);
    assert_eq!(ok.warnings[0].span, Span { start: 8, end: 9 });
    assert_eq!(ok.warnings[0].construct, Construct::Require);
}

#[test]
fn test_require_other_arity_ignored() {
    let zero = leaf(NodeKind::Require { args: vec![] });
    let two = leaf(NodeKind::Require {
        args: vec![
            ImportArg::Dynamic { span: Span { start: 1, end: 2 } },
            ImportArg::Literal { value: String::from("y") },
        ],
    });
    for program in [zero, two] {
        let r = extract_imports(&program, "a.js", Policy::Fatal).unwrap();
        assert!(r.names.is_empty());
        assert!(r.warnings.is_empty());
    }
}

#[test]
fn test_fatal_stops_at_first_dynamic() {
    let program = other(vec![
        static_import("before"),
        dynamic_import_dynamic(5, 11),
        static_import("after"),
    ]);
    let err = extract_imports(&program, "b.js", Policy::Fatal).unwrap_err();
    assert_eq!(err.file_path, String::from("b.js"));
    assert_eq!(err.span, Span { start: 5, end: 11 });
    assert_eq!(err.construct, Construct::DynamicImport);
}

#[test]
fn test_warn_skips_dynamic_and_continues() {
    let program = other(vec![
        static_import("before"),
        dynamic_import_dynamic(5, 11),
        static_import("after"),
    ]);
    let r = extract_imports(&program, "b.js", Policy::Warn).unwrap();
    assert_eq!(r.names, names(&["before", "after"]));
    assert_eq!(r.warnings.len(), 1);
    assert_eq!(r.warnings[0].file_path, String::from("b.js"));
    assert_eq!(r.warnings[0].span, Span { start: 5, end: 11 });
    assert_eq!(r.warnings[0].construct, Construct::DynamicImport);
}

#[test]
fn test_nested_require_under_dynamic_import() {
    // import(require('x')): the outer call is unsupported, but under the warn
    // policy the walk still enters its argument and finds the inner require.
    let program = leaf(NodeKind::DynamicImport {
        arg: ImportArg::Dynamic { span: Span { start: 0, end: 20 } },
    });
    let program = Node { children: vec![require_literal("x")], ..program };
    let r = extract_imports(&program, "a.js", Policy::Warn).unwrap();
    assert_eq!(r.names, names(&["x"]));
    assert_eq!(r.warnings.len(), 1);

    let err = extract_imports(&program, "a.js", Policy::Fatal).unwrap_err();
    assert_eq!(err.span, Span { start: 0, end: 20 });
}

#[test]
fn test_end_to_end_example_file() {
    // import x from 'left-pad'; const y = require('right-pad'); import('dynamic-pkg');
    let program = other(vec![
        static_import("left-pad"),
        other(vec![require_literal("right-pad")]),
        dynamic_import_literal("dynamic-pkg"),
    ]);
    let r = extract_imports(&program, "a.js", Policy::Fatal).unwrap();
    assert_eq!(r.names, names(&["left-pad", "right-pad", "dynamic-pkg"]));
}
