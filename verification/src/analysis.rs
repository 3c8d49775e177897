//! The diagnostic decision for one detected call.
//!
//! Once the detector has established that a call builds a path buffer from a
//! format expansion, [`analyze`] classifies every seam and either renders a
//! replacement expression or refuses with a note-only diagnostic; a fused
//! seam means the interpolated value shares a path component with literal
//! text, which no join rewrite can express. [`check_format_call`] bundles
//! template decomposition with that decision.

use vstd::prelude::*;
use crate::components::views_of;
use crate::seam::all_seams_clean;
use crate::seam::has_fused_seam;
use crate::suggestion::op_views;
use crate::suggestion::render;
use crate::suggestion::rendered;
use crate::suggestion::suggestion_ops;
use crate::suggestion::synthesize;
use crate::template::decompose;
use crate::template::decomposable;
use crate::template::padded;
use crate::template::site_positions;
use crate::template::FormatTemplate;
use crate::template::FormatterKind;

verus! {

/// Confidence that the replacement can be applied mechanically. The host's
/// snippet query reports `MaybeIncorrect` when some argument expression did
/// not render losslessly.
#[derive(Clone, Copy, Debug, PartialEq, Eq, Structural)]
pub enum Applicability {
    MachineApplicable,
    MaybeIncorrect,
}

/// What the rule tells the diagnostic sink.
#[derive(Debug, PartialEq, Eq)]
pub enum Diagnostic {
    /// Emit the lint with `replacement` attached at the given confidence.
    Suggestion { replacement: String, applicability: Applicability },
    /// Emit the lint as a human-only note; no replacement exists because
    /// some seam is fused.
    NoteOnly,
}

/// Decides the diagnostic for a decomposed template. The suggestion carries
/// the applicability the host reported for rendering the argument
/// spellings; a fused seam anywhere suppresses the replacement entirely.
pub fn analyze(t: &FormatTemplate, applicability: Applicability) -> (r: Diagnostic)
    requires
        t@.wf(),
    ensures
        r is NoteOnly <==> !all_seams_clean(t@),
        all_seams_clean(t@) ==> (r matches Diagnostic::Suggestion {
            replacement,
            applicability: a,
        } && replacement@ == rendered(suggestion_ops(t@)) && a == applicability),
{
    if has_fused_seam(t) {
        Diagnostic::NoteOnly
    } else {
        let ops = synthesize(t);
        let replacement = render(&ops);
        proof {
            assert(op_views(ops@) == suggestion_ops(t@));
        }
        Diagnostic::Suggestion { replacement, applicability }
    }
}

/// The whole rewriter phase on one host-recovered expansion: decomposes the
/// template and, when it is in scope, decides the diagnostic. `None` means
/// the rule stays silent.
pub fn check_format_call(
    literal_parts: Vec<String>,
    argument_exprs: Vec<String>,
    formatters: Vec<(usize, FormatterKind)>,
    applicability: Applicability,
) -> (r: Option<Diagnostic>)
    ensures
        r is Some <==> decomposable(
            views_of(literal_parts@),
            views_of(argument_exprs@),
            formatters@,
        ),
        r matches Some(d) ==> {
            let t = (crate::template::TemplateView {
                parts: padded(views_of(literal_parts@), formatters@.len() as int),
                args: views_of(argument_exprs@),
                pos: site_positions(formatters@),
            });
            &&& (d is NoteOnly <==> !all_seams_clean(t))
            &&& (all_seams_clean(t) ==> (d matches Diagnostic::Suggestion {
                replacement,
                applicability: a,
            } && replacement@ == rendered(suggestion_ops(t)) && a == applicability))
        },
{
    match decompose(literal_parts, argument_exprs, formatters) {
        Some(t) => Some(analyze(&t, applicability)),
        None => None,
    }
}

/// The primary message of the lint.
pub fn lint_message() -> (r: &'static str)
    ensures
        r@ == "`format!(..)` used to form `PathBuf`"@,
{
    "`format!(..)` used to form `PathBuf`"
}

/// The help text attached to a suggestion-bearing diagnostic.
pub fn help_text() -> (r: &'static str)
    ensures
        r@ == "consider using `Path::new()` and `.join()` to make it OS-agnostic and improve code readability"@,
{
    "consider using `Path::new()` and `.join()` to make it OS-agnostic and improve code readability"
}

/// The qualified help text of the note-only diagnostic.
pub fn note_text() -> (r: &'static str)
    ensures
        r@ == "if it fits your use case, you may want to consider using `Path::new()` and `.join()` to make it OS-agnostic and improve code readability"@,
{
    "if it fits your use case, you may want to consider using `Path::new()` and `.join()` to make it OS-agnostic and improve code readability"
}

} // verus!
