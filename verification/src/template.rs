//! The decomposed interpolation template.
//!
//! The host recovers, for one format-macro expansion, the literal fragments
//! between interpolation sites, the source spellings of the value arguments,
//! and for each site the argument index it uses together with the formatter
//! kind requested there. [`decompose`] turns that raw recovery into a
//! [`FormatTemplate`] or reports that the expansion is out of scope.

use vstd::prelude::*;
use crate::components::views_of;

verus! {

/// The formatter requested at an interpolation site. Only the plain default
/// formatter is in scope; everything else makes the rule abort.
#[derive(Clone, Copy, Debug, PartialEq, Eq, Structural)]
pub enum FormatterKind {
    Plain,
    Other,
}

/// A format template decomposed into literal fragments and interpolations.
///
/// With `k` interpolation sites, `literal_parts` holds `k + 1` fragments
/// (`literal_parts[i]` is the text between site `i - 1` and site `i`; either
/// end may be empty), `argument_exprs` holds the source spellings of the
/// value arguments in call order, and `position_map[i]` is the index of the
/// argument interpolated at site `i`, which permits reuse and reordering.
#[derive(Debug)]
pub struct FormatTemplate {
    pub literal_parts: Vec<String>,
    pub argument_exprs: Vec<String>,
    pub position_map: Vec<usize>,
}

/// The mathematical content of a [`FormatTemplate`].
pub struct TemplateView {
    pub parts: Seq<Seq<char>>,
    pub args: Seq<Seq<char>>,
    pub pos: Seq<int>,
}

impl TemplateView {
    /// The number of interpolation sites.
    pub open spec fn sites(self) -> int {
        self.pos.len() as int
    }

    /// Shape invariant: one more literal fragment than sites, at least one
    /// site, and every position an in-range argument index.
    pub open spec fn wf(self) -> bool {
        &&& self.parts.len() == self.pos.len() + 1
        &&& self.pos.len() >= 1
        &&& forall|i: int| 0 <= i < self.pos.len() ==> 0 <= #[trigger] self.pos[i] < self.args.len()
    }
}

impl View for FormatTemplate {
    type V = TemplateView;

    open spec fn view(&self) -> TemplateView {
        TemplateView {
            parts: views_of(self.literal_parts@),
            args: views_of(self.argument_exprs@),
            pos: self.position_map@.map_values(|u: usize| u as int),
        }
    }
}

/// The argument index of each recovered site, as mathematical integers.
pub open spec fn site_positions(formatters: Seq<(usize, FormatterKind)>) -> Seq<int> {
    formatters.map_values(|f: (usize, FormatterKind)| f.0 as int)
}

/// Every recovered site asks for the plain default formatter.
pub open spec fn all_plain(formatters: Seq<(usize, FormatterKind)>) -> bool {
    forall|i: int| 0 <= i < formatters.len() ==> (#[trigger] formatters[i]).1 == FormatterKind::Plain
}

/// Every recovered site references an existing value argument.
pub open spec fn positions_in_range(formatters: Seq<(usize, FormatterKind)>, n_args: int) -> bool {
    forall|i: int| 0 <= i < formatters.len() ==> (#[trigger] formatters[i]).0 < n_args
}

/// A recovery is decomposable when it has at least one interpolation site,
/// every site uses the plain formatter on an existing argument, and the
/// fragment count fits the site count (the trailing fragment may be absent).
pub open spec fn decomposable(
    parts: Seq<Seq<char>>,
    args: Seq<Seq<char>>,
    formatters: Seq<(usize, FormatterKind)>,
) -> bool {
    let k = formatters.len() as int;
    &&& k >= 1
    &&& parts.len() == k || parts.len() == k + 1
    &&& all_plain(formatters)
    &&& positions_in_range(formatters, args.len() as int)
}

/// The literal fragments padded with an empty trailing fragment when the
/// host omitted it.
pub open spec fn padded(parts: Seq<Seq<char>>, k: int) -> Seq<Seq<char>> {
    if parts.len() == k {
        parts.push(Seq::empty())
    } else {
        parts
    }
}

/// Builds the [`FormatTemplate`] for one recovered expansion, or `None` when
/// the expansion is out of scope (no interpolation at all, a non-default
/// formatter, a dangling argument index, or a fragment count that does not
/// fit the site count).
pub fn decompose(
    literal_parts: Vec<String>,
    argument_exprs: Vec<String>,
    formatters: Vec<(usize, FormatterKind)>,
) -> (r: Option<FormatTemplate>)
    ensures
        r is Some <==> decomposable(
            views_of(literal_parts@),
            views_of(argument_exprs@),
            formatters@,
        ),
        r matches Some(t) ==> {
            &&& t@.wf()
            &&& t@.parts == padded(views_of(literal_parts@), formatters@.len() as int)
            &&& t@.args == views_of(argument_exprs@)
            &&& t@.pos == site_positions(formatters@)
        },
{
    let k = formatters.len();
    if k == 0 {
        return None;
    }
    if literal_parts.len() != k && !(literal_parts.len() >= 1 && literal_parts.len() - 1 == k) {
        return None;
    }
    let mut positions: Vec<usize> = Vec::new();
    let mut i: usize = 0;
    while i < k
        invariant
            k == formatters@.len(),
            i <= k,
            positions@.len() == i as nat,
            forall|j: int| 0 <= j < i ==> (#[trigger] formatters@[j]).1 == FormatterKind::Plain,
            forall|j: int|
                0 <= j < i ==> (#[trigger] formatters@[j]).0 < argument_exprs@.len(),
            forall|j: int| 0 <= j < i ==> #[trigger] positions@[j] == formatters@[j].0,
        decreases k - i,
    {
        let (index, kind) = formatters[i];
        if !(kind == FormatterKind::Plain) {
            return None;
        }
        if index >= argument_exprs.len() {
            return None;
        }
        positions.push(index);
        i = i + 1;
    }
    let ghost orig_parts = views_of(literal_parts@);
    let mut parts = literal_parts;
    if parts.len() == k {
        parts.push(String::new());
    }
    let t = FormatTemplate {
        literal_parts: parts,
        argument_exprs: argument_exprs,
        position_map: positions,
    };
    proof {
        assert(t@.pos =~= site_positions(formatters@));
        assert(t@.parts =~= padded(orig_parts, formatters@.len() as int));
    }
    Some(t)
}

} // verus!
