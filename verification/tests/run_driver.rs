use js_visitor::ast::{ImportArg, Node, NodeKind, Span};
use js_visitor::driver::{
    absorb_result, dedup_adjacent, parse_args, render_output, Config, ConfigError,
};
use js_visitor::logger::Logger;
use js_visitor::visitor::{extract_imports, Policy};

fn strings(v: &[&str]) -> Vec<String> {
    v.iter().map(|s| String::from(*s)).collect()
}

#[test]
fn test_no_inputs_rejected_before_any_io() {
    // Pure functions of the token list: nothing touches the filesystem.
    assert_eq!(parse_args(&vec![]).unwrap_err(), ConfigError::MissingInputs);
    assert_eq!(parse_args(&strings(&["-i"])).unwrap_err(), ConfigError::MissingInputs);
    assert_eq!(parse_args(&strings(&["--unknown"])).unwrap_err(), ConfigError::MissingInputs);
}

#[test]
fn test_parse_args_positional_and_policy() {
    let c: Config = parse_args(&strings(&["a.js", "-i", "dir"])).unwrap();
    assert_eq!(c.files, strings(&["a.js", "dir"]));
    assert_eq!(c.policy, Policy::Warn);

    let c = parse_args(&strings(&["a.js"])).unwrap();
    assert_eq!(c.policy, Policy::Fatal);

    let c = parse_args(&strings(&["--ignore-dynamic-error", "a.js"])).unwrap();
    assert_eq!(c.policy, Policy::Warn);

    // An unrecognized dash-token is silently ignored, not treated as a path.
    let c = parse_args(&strings(&["-z", "a.js"])).unwrap();
    assert_eq!(c.files, strings(&["a.js"]));
    assert_eq!(c.policy, Policy::Fatal);
}

#[test]
fn test_dedup_removes_only_adjacent_repeats() {
    assert_eq!(dedup_adjacent(&strings(&["a", "b", "a"])), strings(&["a", "b", "a"]));
    assert_eq!(dedup_adjacent(&strings(&["a", "a", "b"])), strings(&["a", "b"]));
    assert_eq!(dedup_adjacent(&strings(&["a", "a", "a"])), strings(&["a"]));
    assert_eq!(dedup_adjacent(&vec![]), Vec::<String>::new());
    assert_eq!(
        dedup_adjacent(&strings(&["x", "x", "y", "y", "x"])),
        strings(&["x", "y", "x"])
    );
}

#[test]
fn test_render_output_lines() {
    assert_eq!(render_output(&vec![]), strings(&["[INFO] No packages found"]));
    assert_eq!(
        render_output(&strings(&["left-pad", "right-pad"])),
        strings(&["[INFO] Found packages:", "- left-pad", "- right-pad"])
    );
}

#[test]
fn test_logger_lines() {
    assert_eq!(Logger::info("m"), String::from("[INFO] m"));
    assert_eq!(Logger::warn("m"), String::from("\u{1b}[33m[WARN] m\u{1b}[0m"));
    assert_eq!(Logger::error("m"), String::from("\u{1b}[31m[ERR] m\u{1b}[0m"));
}

fn static_import(name: &str) -> Node {
    Node { kind: NodeKind::StaticImport { specifier: String::from(name) }, children: vec![] }
}

fn dynamic_import_dynamic(start: u32, end: u32) -> Node {
    Node {
        kind: NodeKind::DynamicImport { arg: ImportArg::Dynamic { span: Span { start, end } } },
        children: vec![],
    }
}

#[test]
fn test_fatal_run_stops_at_offending_file() {
    // Two files: a.js is fine, b.js holds import(someVar). Under the fatal
    // policy the run keeps a.js's extraction internal and halts on b.js.
    let a = Node { kind: NodeKind::Other, children: vec![static_import("left-pad")] };
    let b = Node { kind: NodeKind::Other, children: vec![dynamic_import_dynamic(7, 14)] };

    let mut acc: Vec<String> = vec![];
    let halt = absorb_result(&mut acc, extract_imports(&a, "a.js", Policy::Fatal));
    assert!(halt.is_none());
    assert_eq!(acc, strings(&["left-pad"]));

    let halt = absorb_result(&mut acc, extract_imports(&b, "b.js", Policy::Fatal));
    let d = halt.expect("the fatal policy must halt the run");
    assert_eq!(d.file_path, String::from("b.js"));
    assert_eq!(d.span, Span { start: 7, end: 14 });
    // The accumulated list is untouched by the offending file; the driver
    // prints nothing once halted.
    assert_eq!(acc, strings(&["left-pad"]));
}

#[test]
fn test_warn_run_completes_with_all_files() {
    let a = Node {
        kind: NodeKind::Other,
        children: vec![static_import("left-pad"), static_import("right-pad")],
    };
    let b = Node { kind: NodeKind::Other, children: vec![dynamic_import_dynamic(7, 14)] };
    let c = Node { kind: NodeKind::Other, children: vec![static_import("left-pad")] };

    let mut acc: Vec<String> = vec![];
    for (tree, path) in [(&a, "a.js"), (&b, "b.js"), (&c, "c.js")] {
        let halt = absorb_result(&mut acc, extract_imports(tree, path, Policy::Warn));
        assert!(halt.is_none());
    }
    assert_eq!(acc, strings(&["left-pad", "right-pad", "left-pad"]));
    let deduped = dedup_adjacent(&acc);
    assert_eq!(deduped, strings(&["left-pad", "right-pad", "left-pad"]));
}
