use path_from_format::analysis::analyze;
use path_from_format::analysis::Applicability;
use path_from_format::analysis::Diagnostic;
use path_from_format::components::split_components;
use path_from_format::seam::has_fused_seam;
use path_from_format::seam::is_valid_use_case;
use path_from_format::suggestion::push_comps;
use path_from_format::suggestion::render;
use path_from_format::suggestion::synthesize;
use path_from_format::suggestion::PathOp;
use path_from_format::template::decompose;
use path_from_format::template::FormatterKind;

fn strings(xs: &[&str]) -> Vec<String> {
    xs.iter().map(|s| s.to_string()).collect()
}

#[test]
fn components_of_plain_fragments() {
    assert_eq!(split_components("a/b/c"), strings(&["a", "b", "c"]));
    assert_eq!(split_components("a//b"), strings(&["a", "b"]));
    assert_eq!(split_components("/x\\y/"), strings(&["x", "y"]));
    assert_eq!(split_components(""), Vec::<String>::new());
    assert_eq!(split_components("///"), Vec::<String>::new());
    assert_eq!(split_components("plain"), strings(&["plain"]));
}

#[test]
fn seam_classification() {
    // clean: the interpolated value starts and ends its own component
    assert!(!is_valid_use_case("", "/bar"));
    assert!(!is_valid_use_case("foo/", ""));
    assert!(!is_valid_use_case("foo/", "/bar"));
    assert!(!is_valid_use_case("foo\\", "\\bar"));
    assert!(!is_valid_use_case("", ""));
    // fused: literal text glues onto the interpolated value
    assert!(is_valid_use_case("prefix", "/bar"));
    assert!(is_valid_use_case("foo/", "suffix"));
    assert!(is_valid_use_case("a", "b"));
}

#[test]
fn fused_seam_detection_in_template() {
    let clean = decompose(
        strings(&["/foo/", "/bar"]),
        strings(&["v"]),
        vec![(0, FormatterKind::Plain)],
    )
    .unwrap();
    assert!(!has_fused_seam(&clean));
    let fused = decompose(
        strings(&["prefix", "/bar"]),
        strings(&["v"]),
        vec![(0, FormatterKind::Plain)],
    )
    .unwrap();
    assert!(has_fused_seam(&fused));
}

#[test]
fn synthesized_operations() {
    let t = decompose(
        strings(&["/foo/", "/bar"]),
        strings(&["v"]),
        vec![(0, FormatterKind::Plain)],
    )
    .unwrap();
    let ops = synthesize(&t);
    assert_eq!(
        ops,
        vec![
            PathOp::Literal("foo".to_string()),
            PathOp::Argument("v".to_string()),
            PathOp::Literal("bar".to_string()),
        ]
    );
    assert_eq!(render(&ops), "Path::new(\"foo\").join(v).join(\"bar\")");
}

#[test]
fn push_comps_starts_and_extends_a_chain() {
    let mut s = String::new();
    push_comps(&mut s, "foo/bar");
    assert_eq!(s, "Path::new(\"foo\").join(\"bar\")");
    push_comps(&mut s, "/baz/");
    assert_eq!(s, "Path::new(\"foo\").join(\"bar\").join(\"baz\")");
    let mut empty = String::new();
    push_comps(&mut empty, "///");
    assert_eq!(empty, "");
}

#[test]
fn analyze_carries_the_rendered_suggestion() {
    let t = decompose(
        strings(&["", "/foo/bar"]),
        strings(&["base_path1"]),
        vec![(0, FormatterKind::Plain)],
    )
    .unwrap();
    let d = analyze(&t, Applicability::MachineApplicable);
    assert_eq!(
        d,
        Diagnostic::Suggestion {
            replacement: "Path::new(base_path1).join(\"foo\").join(\"bar\")".to_string(),
            applicability: Applicability::MachineApplicable,
        }
    );
}

#[test]
fn analyze_refuses_on_any_fused_seam() {
    let t = decompose(
        strings(&["a/", "b/", "/c"]),
        strings(&["x", "y"]),
        vec![(0, FormatterKind::Plain), (1, FormatterKind::Plain)],
    )
    .unwrap();
    assert_eq!(analyze(&t, Applicability::MachineApplicable), Diagnostic::NoteOnly);
}
