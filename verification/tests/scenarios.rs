use path_from_format::analysis::check_format_call;
use path_from_format::analysis::help_text;
use path_from_format::analysis::lint_message;
use path_from_format::analysis::note_text;
use path_from_format::analysis::Applicability;
use path_from_format::analysis::Diagnostic;
use path_from_format::template::FormatterKind;

fn strings(xs: &[&str]) -> Vec<String> {
    xs.iter().map(|s| s.to_string()).collect()
}

fn plain(positions: &[usize]) -> Vec<(usize, FormatterKind)> {
    positions.iter().map(|&p| (p, FormatterKind::Plain)).collect()
}

fn expect_suggestion(d: Option<Diagnostic>, replacement: &str, applicability: Applicability) {
    match d {
        Some(Diagnostic::Suggestion { replacement: r, applicability: a }) => {
            assert_eq!(r, replacement);
            assert_eq!(a, applicability);
        }
        other => panic!("expected a suggestion, got {:?}", other),
    }
}

// format!("{}/foo/bar", base_path1)
#[test]
fn leading_interpolation() {
    let d = check_format_call(
        strings(&["", "/foo/bar"]),
        strings(&["base_path1"]),
        plain(&[0]),
        Applicability::MachineApplicable,
    );
    expect_suggestion(
        d,
        "Path::new(base_path1).join(\"foo\").join(\"bar\")",
        Applicability::MachineApplicable,
    );
}

// format!("/foo/bar/{}", base_path1)
#[test]
fn trailing_interpolation() {
    let d = check_format_call(
        strings(&["/foo/bar/", ""]),
        strings(&["base_path1"]),
        plain(&[0]),
        Applicability::MachineApplicable,
    );
    expect_suggestion(
        d,
        "Path::new(\"foo\").join(\"bar\").join(base_path1)",
        Applicability::MachineApplicable,
    );
}

// format!("/foo/{}/bar", base_path1)
#[test]
fn absolute_middle_interpolation() {
    let d = check_format_call(
        strings(&["/foo/", "/bar"]),
        strings(&["base_path1"]),
        plain(&[0]),
        Applicability::MachineApplicable,
    );
    expect_suggestion(
        d,
        "Path::new(\"foo\").join(base_path1).join(\"bar\")",
        Applicability::MachineApplicable,
    );
}

// format!("foo/{}/bar", base_path1)
#[test]
fn relative_middle_interpolation() {
    let d = check_format_call(
        strings(&["foo/", "/bar"]),
        strings(&["base_path1"]),
        plain(&[0]),
        Applicability::MachineApplicable,
    );
    expect_suggestion(
        d,
        "Path::new(\"foo\").join(base_path1).join(\"bar\")",
        Applicability::MachineApplicable,
    );
}

// format!("foo/{base_path1}/bar"): a captured-name interpolation reaches the
// core as the capture's spelling in argument position
#[test]
fn captured_name_interpolation() {
    let d = check_format_call(
        strings(&["foo/", "/bar"]),
        strings(&["base_path1"]),
        plain(&[0]),
        Applicability::MachineApplicable,
    );
    expect_suggestion(
        d,
        "Path::new(\"foo\").join(base_path1).join(\"bar\")",
        Applicability::MachineApplicable,
    );
}

// format!("prefix{}/bar", x): the seam before the interpolation is fused
#[test]
fn fused_seam_is_refused() {
    let d = check_format_call(
        strings(&["prefix", "/bar"]),
        strings(&["x"]),
        plain(&[0]),
        Applicability::MachineApplicable,
    );
    assert_eq!(d, Some(Diagnostic::NoteOnly));
}

#[test]
fn fused_seam_on_the_right() {
    let d = check_format_call(
        strings(&["dir/", "suffix"]),
        strings(&["x"]),
        plain(&[0]),
        Applicability::MachineApplicable,
    );
    assert_eq!(d, Some(Diagnostic::NoteOnly));
}

#[test]
fn backslash_counts_as_separator() {
    let d = check_format_call(
        strings(&["dir\\", "\\leaf"]),
        strings(&["x"]),
        plain(&[0]),
        Applicability::MachineApplicable,
    );
    expect_suggestion(
        d,
        "Path::new(\"dir\").join(x).join(\"leaf\")",
        Applicability::MachineApplicable,
    );
}

// the host may omit the trailing literal fragment
#[test]
fn omitted_trailing_fragment() {
    let d = check_format_call(
        strings(&["foo/"]),
        strings(&["a"]),
        plain(&[0]),
        Applicability::MachineApplicable,
    );
    expect_suggestion(d, "Path::new(\"foo\").join(a)", Applicability::MachineApplicable);
}

// format!("{1}/{0}/{1}", a, b): reordering and reuse are honored
#[test]
fn reordered_and_reused_arguments() {
    let d = check_format_call(
        strings(&["", "/", "/", ""]),
        strings(&["a", "b"]),
        plain(&[1, 0, 1]),
        Applicability::MachineApplicable,
    );
    expect_suggestion(d, "Path::new(b).join(a).join(b)", Applicability::MachineApplicable);
}

#[test]
fn degraded_applicability_is_kept() {
    let d = check_format_call(
        strings(&["", "/foo"]),
        strings(&["x.to_string()"]),
        plain(&[0]),
        Applicability::MaybeIncorrect,
    );
    expect_suggestion(d, "Path::new(x.to_string()).join(\"foo\")", Applicability::MaybeIncorrect);
}

// repeated separators collapse and empty components vanish
#[test]
fn repeated_separators_collapse() {
    let d = check_format_call(
        strings(&["//foo///bar//", ""]),
        strings(&["v"]),
        plain(&[0]),
        Applicability::MachineApplicable,
    );
    expect_suggestion(
        d,
        "Path::new(\"foo\").join(\"bar\").join(v)",
        Applicability::MachineApplicable,
    );
}

#[test]
fn no_interpolation_aborts() {
    let d = check_format_call(
        strings(&["foo/bar"]),
        strings(&[]),
        plain(&[]),
        Applicability::MachineApplicable,
    );
    assert_eq!(d, None);
}

#[test]
fn non_plain_formatter_aborts() {
    let d = check_format_call(
        strings(&["", "/foo"]),
        strings(&["x"]),
        vec![(0, FormatterKind::Other)],
        Applicability::MachineApplicable,
    );
    assert_eq!(d, None);
}

#[test]
fn dangling_argument_index_aborts() {
    let d = check_format_call(
        strings(&["", "/foo"]),
        strings(&["x"]),
        plain(&[1]),
        Applicability::MachineApplicable,
    );
    assert_eq!(d, None);
}

#[test]
fn fragment_count_mismatch_aborts() {
    let d = check_format_call(
        strings(&["a/", "/b", "/c"]),
        strings(&["x"]),
        plain(&[0]),
        Applicability::MachineApplicable,
    );
    assert_eq!(d, None);
}

// the analysis is a function of its input: re-running it reproduces the
// same diagnostic
#[test]
fn analysis_is_idempotent() {
    let first = check_format_call(
        strings(&["/foo/", "/bar"]),
        strings(&["base_path1"]),
        plain(&[0]),
        Applicability::MachineApplicable,
    );
    let second = check_format_call(
        strings(&["/foo/", "/bar"]),
        strings(&["base_path1"]),
        plain(&[0]),
        Applicability::MachineApplicable,
    );
    assert_eq!(first, second);
    let refused_once = check_format_call(
        strings(&["prefix", "/bar"]),
        strings(&["x"]),
        plain(&[0]),
        Applicability::MachineApplicable,
    );
    let refused_twice = check_format_call(
        strings(&["prefix", "/bar"]),
        strings(&["x"]),
        plain(&[0]),
        Applicability::MachineApplicable,
    );
    assert_eq!(refused_once, refused_twice);
}

#[test]
fn diagnostic_texts() {
    assert_eq!(lint_message(), "`format!(..)` used to form `PathBuf`");
    assert_eq!(
        help_text(),
        "consider using `Path::new()` and `.join()` to make it OS-agnostic and improve code readability"
    );
    assert_eq!(
        note_text(),
        "if it fits your use case, you may want to consider using `Path::new()` and `.join()` to make it OS-agnostic and improve code readability"
    );
}
