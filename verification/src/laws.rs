//! The correctness laws of the synthesizer, proved once and for all
//! templates rather than observed on examples.

use vstd::prelude::*;
use vstd::seq_lib::lemma_concat_associative;
use crate::components::components_of;
use crate::components::is_sep;
use crate::components::lemma_components_concat;
use crate::components::lemma_components_wf;
use crate::components::sep_free;
use crate::seam::all_seams_clean;
use crate::seam::seam_clean;
use crate::suggestion::lit_ops;
use crate::suggestion::ops_upto;
use crate::suggestion::rendered;
use crate::suggestion::site_ops;
use crate::suggestion::suggestion_ops;
use crate::suggestion::OpView;
use crate::template::TemplateView;

verus! {

/// The argument spellings an operation sequence references, in order.
pub open spec fn argument_sequence(ops: Seq<OpView>) -> Seq<Seq<char>>
    decreases ops.len(),
{
    if ops.len() == 0 {
        Seq::empty()
    } else {
        let rest = argument_sequence(ops.drop_first());
        match ops[0] {
            OpView::Argument(a) => seq![a] + rest,
            OpView::Literal(_) => rest,
        }
    }
}

proof fn lemma_argument_sequence_concat(a: Seq<OpView>, b: Seq<OpView>)
    ensures
        argument_sequence(a + b) == argument_sequence(a) + argument_sequence(b),
    decreases a.len(),
{
    if a.len() == 0 {
        assert(a + b =~= b);
        assert(argument_sequence(a) + argument_sequence(b) =~= argument_sequence(b));
    } else {
        assert((a + b).drop_first() =~= a.drop_first() + b);
        assert((a + b)[0] == a[0]);
        lemma_argument_sequence_concat(a.drop_first(), b);
        match a[0] {
            OpView::Argument(x) => {
                lemma_concat_associative(
                    seq![x],
                    argument_sequence(a.drop_first()),
                    argument_sequence(b),
                );
            },
            OpView::Literal(_) => {},
        }
    }
}

proof fn lemma_argument_sequence_lits(cs: Seq<Seq<char>>)
    ensures
        argument_sequence(lit_ops(cs)) == Seq::<Seq<char>>::empty(),
    decreases cs.len(),
{
    if cs.len() == 0 {
        assert(lit_ops(cs) =~= Seq::<OpView>::empty());
    } else {
        assert(lit_ops(cs).drop_first() =~= lit_ops(cs.drop_first()));
        assert(lit_ops(cs)[0] == OpView::Literal(cs[0]));
        lemma_argument_sequence_lits(cs.drop_first());
    }
}

proof fn lemma_argument_sequence_site(t: TemplateView, i: int)
    requires
        t.wf(),
        0 <= i < t.sites(),
    ensures
        argument_sequence(site_ops(t, i)) == seq![t.args[t.pos[i]]],
{
    let single = seq![OpView::Argument(t.args[t.pos[i]])];
    lemma_argument_sequence_concat(lit_ops(components_of(t.parts[i])), single);
    lemma_argument_sequence_lits(components_of(t.parts[i]));
    assert(single.drop_first() =~= Seq::<OpView>::empty());
    assert(single[0] == OpView::Argument(t.args[t.pos[i]]));
    assert(seq![t.args[t.pos[i]]] + argument_sequence(single.drop_first()) =~= seq![
        t.args[t.pos[i]],
    ]);
    assert(argument_sequence(site_ops(t, i)) =~= seq![t.args[t.pos[i]]]);
}

proof fn lemma_argument_sequence_upto(t: TemplateView, n: int)
    requires
        t.wf(),
        0 <= n <= t.sites(),
    ensures
        argument_sequence(ops_upto(t, n)) == Seq::new(n as nat, |i: int| t.args[t.pos[i]]),
    decreases n,
{
    if n == 0 {
        assert(argument_sequence(ops_upto(t, 0)) =~= Seq::new(0, |i: int| t.args[t.pos[i]]));
    } else {
        lemma_argument_sequence_upto(t, n - 1);
        lemma_argument_sequence_concat(ops_upto(t, n - 1), site_ops(t, n - 1));
        lemma_argument_sequence_site(t, n - 1);
        assert(argument_sequence(ops_upto(t, n)) =~= Seq::new(n as nat, |i: int| t.args[t.pos[i]]));
    }
}

/// Order preservation: the sequence of argument spellings referenced by the
/// synthesized suggestion is exactly the position map applied to the
/// argument list, so reordering and reuse are honored site by site.
pub proof fn lemma_order_preservation(t: TemplateView)
    requires
        t.wf(),
    ensures
        argument_sequence(suggestion_ops(t)) == Seq::new(
            t.pos.len(),
            |i: int| t.args[t.pos[i]],
        ),
{
    lemma_argument_sequence_concat(
        ops_upto(t, t.sites()),
        lit_ops(components_of(t.parts[t.sites()])),
    );
    lemma_argument_sequence_lits(components_of(t.parts[t.sites()]));
    lemma_argument_sequence_upto(t, t.sites());
    assert(argument_sequence(suggestion_ops(t)) =~= Seq::new(
        t.pos.len(),
        |i: int| t.args[t.pos[i]],
    ));
}

/// A literal operand that is one non-empty, separator-free path component.
pub open spec fn op_is_normalized(o: OpView) -> bool {
    match o {
        OpView::Literal(c) => c.len() > 0 && sep_free(c),
        OpView::Argument(_) => true,
    }
}

pub open spec fn all_normalized(ops: Seq<OpView>) -> bool {
    forall|i: int| 0 <= i < ops.len() ==> op_is_normalized(#[trigger] ops[i])
}

proof fn lemma_all_normalized_concat(a: Seq<OpView>, b: Seq<OpView>)
    requires
        all_normalized(a),
        all_normalized(b),
    ensures
        all_normalized(a + b),
{
    assert forall|i: int| 0 <= i < (a + b).len() implies op_is_normalized(#[trigger] (a + b)[i]) by {
        if i < a.len() {
            assert((a + b)[i] == a[i]);
        } else {
            assert((a + b)[i] == b[i - a.len()]);
        }
    }
}

proof fn lemma_lit_ops_normalized(p: Seq<char>)
    ensures
        all_normalized(lit_ops(components_of(p))),
{
    lemma_components_wf(p);
    assert forall|i: int|
        0 <= i < lit_ops(components_of(p)).len() implies op_is_normalized(
        #[trigger] lit_ops(components_of(p))[i],
    ) by {
        assert(lit_ops(components_of(p))[i] == OpView::Literal(components_of(p)[i]));
    }
}

proof fn lemma_normalized_upto(t: TemplateView, n: int)
    requires
        t.wf(),
        0 <= n <= t.sites(),
    ensures
        all_normalized(ops_upto(t, n)),
    decreases n,
{
    if n > 0 {
        lemma_normalized_upto(t, n - 1);
        lemma_lit_ops_normalized(t.parts[n - 1]);
        let single = seq![OpView::Argument(t.args[t.pos[n - 1]])];
        assert(all_normalized(single)) by {
            assert(single[0] == OpView::Argument(t.args[t.pos[n - 1]]));
        }
        lemma_all_normalized_concat(lit_ops(components_of(t.parts[n - 1])), single);
        lemma_all_normalized_concat(ops_upto(t, n - 1), site_ops(t, n - 1));
    }
}

/// Separator normalization: every literal operand of the suggestion is a
/// single non-empty path component, so none carries a leading or trailing
/// separator (indeed none contains a separator at all).
pub proof fn lemma_separator_normalization(t: TemplateView)
    requires
        t.wf(),
    ensures
        all_normalized(suggestion_ops(t)),
{
    lemma_normalized_upto(t, t.sites());
    lemma_lit_ops_normalized(t.parts[t.sites()]);
    lemma_all_normalized_concat(
        ops_upto(t, t.sites()),
        lit_ops(components_of(t.parts[t.sites()])),
    );
}

/// The template text of the first `n` interpolation sites, with each
/// interpolated value replaced by the opaque placeholder `ph`.
pub open spec fn flat_upto(t: TemplateView, ph: char, n: int) -> Seq<char>
    decreases n,
{
    if n <= 0 {
        Seq::empty()
    } else {
        flat_upto(t, ph, n - 1) + t.parts[n - 1] + seq![ph]
    }
}

/// The whole template text with every interpolation replaced by the opaque
/// placeholder `ph`.
pub open spec fn template_with_placeholders(t: TemplateView, ph: char) -> Seq<char> {
    flat_upto(t, ph, t.sites()) + t.parts[t.sites()]
}

/// The path component each operation stands for: a literal component is
/// itself, an interpolated argument is the opaque placeholder.
pub open spec fn op_components(ops: Seq<OpView>, ph: char) -> Seq<Seq<char>> {
    ops.map_values(
        |o: OpView|
            match o {
                OpView::Literal(c) => c,
                OpView::Argument(_) => seq![ph],
            },
    )
}

proof fn lemma_single_component(ph: char)
    requires
        !is_sep(ph),
    ensures
        components_of(seq![ph]) == seq![seq![ph]],
{
    assert(seq![ph].drop_last() =~= Seq::<char>::empty());
    assert(seq![ph].last() == ph);
    assert(components_of(Seq::<char>::empty()) == Seq::<Seq<char>>::empty());
    assert(Seq::<Seq<char>>::empty().push(seq![ph]) =~= seq![seq![ph]]);
}

proof fn lemma_flat_upto_shape(t: TemplateView, ph: char, n: int)
    requires
        1 <= n,
    ensures
        flat_upto(t, ph, n).len() > 0,
        flat_upto(t, ph, n).last() == ph,
{
    let f = flat_upto(t, ph, n - 1) + t.parts[n - 1];
    assert(flat_upto(t, ph, n) == f + seq![ph]);
    assert((f + seq![ph]).last() == ph);
}

proof fn lemma_preservation_upto(t: TemplateView, ph: char, n: int)
    requires
        t.wf(),
        all_seams_clean(t),
        !is_sep(ph),
        forall|i: int| 1 <= i < t.sites() ==> (#[trigger] t.parts[i]).len() > 0,
        0 <= n <= t.sites(),
    ensures
        components_of(flat_upto(t, ph, n)) == op_components(ops_upto(t, n), ph),
    decreases n,
{
    if n == 0 {
        assert(components_of(flat_upto(t, ph, 0)) =~= op_components(ops_upto(t, 0), ph));
    } else {
        lemma_preservation_upto(t, ph, n - 1);
        let f = flat_upto(t, ph, n - 1);
        let p = t.parts[n - 1];
        assert(seam_clean(t.parts[n - 1], t.parts[n - 1 + 1]));
        // split off the fragment of site n - 1
        if n - 1 == 0 {
            assert(f + p =~= p);
            assert(components_of(f) =~= Seq::<Seq<char>>::empty());
            assert(components_of(f + p) == components_of(f) + components_of(p)) by {
                assert(components_of(f) + components_of(p) =~= components_of(p));
            }
        } else {
            assert(p.len() > 0);
            assert(seam_clean(t.parts[n - 2], t.parts[n - 2 + 1]));
            assert(is_sep(p[0]));
            lemma_flat_upto_shape(t, ph, n - 1);
            lemma_components_concat(f, p);
        }
        // split off the placeholder of site n - 1
        if p.len() > 0 {
            assert(is_sep(p.last()));
            assert((f + p).len() > 0 && (f + p).last() == p.last());
        } else {
            assert(f + p =~= f);
            if n - 1 == 0 {
            } else {
                assert(p.len() > 0);
            }
        }
        lemma_components_concat(f + p, seq![ph]);
        lemma_single_component(ph);
        lemma_concat_associative(components_of(f), components_of(p), seq![seq![ph]]);
        assert(flat_upto(t, ph, n) == (f + p) + seq![ph]);
        assert(components_of(flat_upto(t, ph, n)) == components_of(f) + components_of(p)
            + seq![seq![ph]]);
        // the operation side of site n - 1
        assert(op_components(ops_upto(t, n), ph) =~= op_components(ops_upto(t, n - 1), ph)
            + components_of(p) + seq![seq![ph]]);
    }
}

/// Component preservation: for a template whose seams are all clean and
/// whose interior fragments are non-empty, the components of the template
/// text (interpolations read as opaque placeholders) are exactly, and in
/// order, the components the synthesized operations stand for. In
/// particular the two multisets of non-empty path components coincide.
pub proof fn lemma_component_preservation(t: TemplateView, ph: char)
    requires
        t.wf(),
        all_seams_clean(t),
        !is_sep(ph),
        forall|i: int| 1 <= i < t.sites() ==> (#[trigger] t.parts[i]).len() > 0,
    ensures
        components_of(template_with_placeholders(t, ph)) == op_components(suggestion_ops(t), ph),
        components_of(template_with_placeholders(t, ph)).to_multiset() == op_components(
            suggestion_ops(t),
            ph,
        ).to_multiset(),
{
    let k = t.sites();
    lemma_preservation_upto(t, ph, k);
    let f = flat_upto(t, ph, k);
    let p = t.parts[k];
    lemma_flat_upto_shape(t, ph, k);
    assert(seam_clean(t.parts[k - 1], t.parts[k - 1 + 1]));
    lemma_components_concat(f, p);
    assert(op_components(suggestion_ops(t), ph) =~= op_components(ops_upto(t, k), ph)
        + components_of(p));
}

/// Idempotence of the analysis: the seam verdict, the synthesized operation
/// sequence and its rendering are functions of the template alone, so
/// running the rule again on the same expression reproduces the same
/// diagnostic.
pub proof fn lemma_analysis_deterministic(t1: TemplateView, t2: TemplateView)
    requires
        t1 == t2,
    ensures
        all_seams_clean(t1) == all_seams_clean(t2),
        suggestion_ops(t1) == suggestion_ops(t2),
        rendered(suggestion_ops(t1)) == rendered(suggestion_ops(t2)),
{
}

} // verus!
