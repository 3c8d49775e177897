//! Seam classification.
//!
//! The seam of interpolation site `i` is the pair of literal fragments
//! around it. It is clean when the left fragment is empty or ends in a
//! separator and the right fragment is empty or starts with one; otherwise
//! the interpolated value is fused into a single path component with
//! adjacent literal text and no join rewrite can express it.

use vstd::prelude::*;
use vstd::string::*;
use crate::components::is_sep;
use crate::components::sep_char;
use crate::template::FormatTemplate;
use crate::template::TemplateView;

verus! {

/// The interpolated value between `left` and `right` starts and ends a path
/// component of its own.
pub open spec fn seam_clean(left: Seq<char>, right: Seq<char>) -> bool {
    (left.len() == 0 || is_sep(left.last())) && (right.len() == 0 || is_sep(right[0]))
}

/// Every seam of the template is clean.
pub open spec fn all_seams_clean(t: TemplateView) -> bool {
    forall|i: int| 0 <= i < t.sites() ==> #[trigger] seam_clean(t.parts[i], t.parts[i + 1])
}

/// Decides whether the seam between the literal fragments `string` and
/// `string2` fuses the interpolated value into one of them: `true` means the
/// rewrite must be refused for this site.
pub fn is_valid_use_case(string: &str, string2: &str) -> (r: bool)
    ensures
        r == !seam_clean(string@, string2@),
{
    let left_len = string.unicode_len();
    let left_ok = left_len == 0 || sep_char(string.get_char(left_len - 1));
    let right_ok = string2.is_empty() || sep_char(string2.get_char(0));
    !(left_ok && right_ok)
}

/// Looks for a fused seam anywhere in the template.
pub fn has_fused_seam(t: &FormatTemplate) -> (r: bool)
    requires
        t@.wf(),
    ensures
        r == !all_seams_clean(t@),
{
    let k = t.position_map.len();
    let mut i: usize = 0;
    while i < k
        invariant
            t@.wf(),
            t@.sites() == k as int,
            t.literal_parts@.len() == k + 1,
            i <= k,
            forall|j: int| 0 <= j < i ==> #[trigger] seam_clean(t@.parts[j], t@.parts[j + 1]),
        decreases k - i,
    {
        if is_valid_use_case(t.literal_parts[i].as_str(), t.literal_parts[i + 1].as_str()) {
            proof {
                assert(t@.parts[i as int] == t.literal_parts@[i as int]@);
                assert(t@.parts[i as int + 1] == t.literal_parts@[i as int + 1]@);
                assert(!seam_clean(t@.parts[i as int], t@.parts[i as int + 1]));
            }
            return true;
        }
        i = i + 1;
    }
    false
}

} // verus!
