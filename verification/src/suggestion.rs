//! Synthesis and rendering of the join expression.
//!
//! A suggestion is a sequence of path operations; the first one becomes
//! `Path::new(..)` and every later one `.join(..)`. A literal operand is a
//! single path component and renders double-quoted; an argument operand is
//! the verbatim source spelling of the interpolated expression.

use vstd::prelude::*;
use vstd::seq_lib::lemma_concat_associative;
use vstd::string::*;
use crate::components::components_of;
use crate::components::split_components;
use crate::components::views_of;
use crate::template::FormatTemplate;
use crate::template::TemplateView;

verus! {

/// One operand of the synthesized expression.
#[derive(Debug, PartialEq, Eq)]
pub enum PathOp {
    /// A literal path component, rendered as a double-quoted string literal.
    Literal(String),
    /// An interpolated argument, rendered as its verbatim source spelling.
    Argument(String),
}

/// The mathematical content of a [`PathOp`].
pub enum OpView {
    Literal(Seq<char>),
    Argument(Seq<char>),
}

impl View for PathOp {
    type V = OpView;

    open spec fn view(&self) -> OpView {
        match self {
            PathOp::Literal(s) => OpView::Literal(s@),
            PathOp::Argument(s) => OpView::Argument(s@),
        }
    }
}

/// The views of a sequence of owned operations.
pub open spec fn op_views(ops: Seq<PathOp>) -> Seq<OpView> {
    ops.map_values(|o: PathOp| o@)
}

/// One literal operation per component, in order.
pub open spec fn lit_ops(cs: Seq<Seq<char>>) -> Seq<OpView> {
    cs.map_values(|c: Seq<char>| OpView::Literal(c))
}

/// The operations contributed by interpolation site `i`: the components of
/// the literal fragment before it, then the argument it interpolates.
pub open spec fn site_ops(t: TemplateView, i: int) -> Seq<OpView> {
    lit_ops(components_of(t.parts[i])) + seq![OpView::Argument(t.args[t.pos[i]])]
}

/// The operations of the first `n` interpolation sites.
pub open spec fn ops_upto(t: TemplateView, n: int) -> Seq<OpView>
    decreases n,
{
    if n <= 0 {
        Seq::empty()
    } else {
        ops_upto(t, n - 1) + site_ops(t, n - 1)
    }
}

/// The full operation sequence of the suggestion: every site in order,
/// then the components of the trailing literal fragment.
pub open spec fn suggestion_ops(t: TemplateView) -> Seq<OpView> {
    ops_upto(t, t.sites()) + lit_ops(components_of(t.parts[t.sites()]))
}

/// Appends one literal operation per component of `fragment`.
fn push_literal_ops(ops: &mut Vec<PathOp>, fragment: &str)
    ensures
        op_views(final(ops)@) == op_views(old(ops)@) + lit_ops(components_of(fragment@)),
{
    let comps = split_components(fragment);
    let ghost cviews = views_of(comps@);
    let n = comps.len();
    let mut j: usize = 0;
    while j < n
        invariant
            cviews == views_of(comps@),
            cviews == components_of(fragment@),
            n == comps@.len(),
            j <= n,
            op_views(ops@) == op_views(old(ops)@) + lit_ops(cviews.take(j as int)),
        decreases n - j,
    {
        let c = comps[j].clone();
        proof {
            assert(c@ == cviews[j as int]);
            assert(op_views(ops@.push(PathOp::Literal(c))) =~= op_views(ops@).push(
                OpView::Literal(c@),
            ));
            assert(lit_ops(cviews.take(j as int + 1)) =~= lit_ops(cviews.take(j as int)).push(
                OpView::Literal(cviews[j as int]),
            ));
            assert((op_views(old(ops)@) + lit_ops(cviews.take(j as int))).push(
                OpView::Literal(cviews[j as int]),
            ) =~= op_views(old(ops)@) + lit_ops(cviews.take(j as int + 1)));
        }
        ops.push(PathOp::Literal(c));
        j = j + 1;
    }
    proof {
        assert(cviews.take(n as int) =~= cviews);
    }
}

/// Synthesizes the operation sequence for a template whose seams have all
/// been found clean: the components of each literal fragment in order,
/// interleaved with the argument spelling each site interpolates.
pub fn synthesize(t: &FormatTemplate) -> (ops: Vec<PathOp>)
    requires
        t@.wf(),
    ensures
        op_views(ops@) == suggestion_ops(t@),
{
    let k = t.position_map.len();
    let mut ops: Vec<PathOp> = Vec::new();
    let mut i: usize = 0;
    while i < k
        invariant
            t@.wf(),
            t@.sites() == k as int,
            t.literal_parts@.len() == k + 1,
            t.position_map@.len() == k,
            i <= k,
            op_views(ops@) == ops_upto(t@, i as int),
        decreases k - i,
    {
        proof {
            assert(t@.parts[i as int] == t.literal_parts@[i as int]@);
        }
        push_literal_ops(&mut ops, t.literal_parts[i].as_str());
        let p = t.position_map[i];
        proof {
            assert(t@.pos[i as int] == p as int);
            assert(p < t.argument_exprs@.len());
        }
        let arg = t.argument_exprs[p].clone();
        proof {
            assert(arg@ == t@.args[t@.pos[i as int]]);
            assert(op_views(ops@.push(PathOp::Argument(arg))) =~= op_views(ops@).push(
                OpView::Argument(arg@),
            ));
            assert(ops_upto(t@, i as int + 1) == ops_upto(t@, i as int) + site_ops(t@, i as int));
            assert((ops_upto(t@, i as int) + lit_ops(components_of(t@.parts[i as int]))).push(
                OpView::Argument(t@.args[t@.pos[i as int]]),
            ) =~= ops_upto(t@, i as int + 1));
        }
        ops.push(PathOp::Argument(arg));
        i = i + 1;
    }
    proof {
        assert(t@.parts[k as int] == t.literal_parts@[k as int]@);
    }
    push_literal_ops(&mut ops, t.literal_parts[k].as_str());
    ops
}

/// The source text of one operand: quoted for a literal component, verbatim
/// for an argument spelling.
pub open spec fn op_text(o: OpView) -> Seq<char> {
    match o {
        OpView::Literal(c) => "\""@ + c + "\""@,
        OpView::Argument(a) => a,
    }
}

/// The text of the `.join(..)` calls for `ops`, in order.
pub open spec fn joins_text(ops: Seq<OpView>) -> Seq<char>
    decreases ops.len(),
{
    if ops.len() == 0 {
        Seq::empty()
    } else {
        ".join("@ + op_text(ops[0]) + ")"@ + joins_text(ops.drop_first())
    }
}

/// The rendered suggestion: `Path::new(..)` on the first operand, then one
/// `.join(..)` per later operand.
pub open spec fn rendered(ops: Seq<OpView>) -> Seq<char> {
    if ops.len() == 0 {
        Seq::empty()
    } else {
        "Path::new("@ + op_text(ops[0]) + ")"@ + joins_text(ops.drop_first())
    }
}

proof fn lemma_joins_text_push(ops: Seq<OpView>, x: OpView)
    ensures
        joins_text(ops.push(x)) == joins_text(ops) + ".join("@ + op_text(x) + ")"@,
    decreases ops.len(),
{
    if ops.len() == 0 {
        assert(ops.push(x).drop_first() =~= Seq::<OpView>::empty());
        assert(ops.push(x)[0] == x);
        let jx = ".join("@;
        let tx = op_text(x);
        let close = ")"@;
        assert(joins_text(ops.push(x)) == jx + tx + close + joins_text(Seq::<OpView>::empty()));
        assert(jx + tx + close + Seq::<char>::empty() =~= jx + tx + close);
        assert(joins_text(ops) + jx =~= jx);
        assert(joins_text(ops.push(x)) == joins_text(ops) + ".join("@ + op_text(x) + ")"@);
    } else {
        let tail = ops.drop_first();
        assert(ops.push(x).drop_first() =~= tail.push(x));
        assert(ops.push(x)[0] == ops[0]);
        lemma_joins_text_push(tail, x);
        let head = ".join("@ + op_text(ops[0]) + ")"@;
        assert(joins_text(ops.push(x)) == head + joins_text(tail.push(x)));
        assert(joins_text(ops) == head + joins_text(tail));
        let jt = joins_text(tail);
        let jx = ".join("@;
        let tx = op_text(x);
        let close = ")"@;
        lemma_concat_associative(head, ((jt + jx) + tx), close);
        lemma_concat_associative(head, jt + jx, tx);
        lemma_concat_associative(head, jt, jx);
        assert(joins_text(ops.push(x)) == joins_text(ops) + ".join("@ + op_text(x) + ")"@);
    }
}

proof fn lemma_rendered_push(ops: Seq<OpView>, x: OpView)
    ensures
        ops.len() == 0 ==> rendered(ops.push(x)) == "Path::new("@ + op_text(x) + ")"@,
        ops.len() > 0 ==> rendered(ops.push(x)) == rendered(ops) + ".join("@ + op_text(x) + ")"@,
{
    if ops.len() == 0 {
        assert(ops.push(x).drop_first() =~= Seq::<OpView>::empty());
        assert(rendered(ops.push(x)) =~= "Path::new("@ + op_text(x) + ")"@);
    } else {
        assert(ops.push(x).drop_first() =~= ops.drop_first().push(x));
        assert(ops.push(x)[0] == ops[0]);
        lemma_joins_text_push(ops.drop_first(), x);
        assert(rendered(ops.push(x)) =~= rendered(ops) + ".join("@ + op_text(x) + ")"@);
    }
}

/// Renders the operation sequence as a single expression string.
pub fn render(ops: &Vec<PathOp>) -> (r: String)
    ensures
        r@ == rendered(op_views(ops@)),
{
    let n = ops.len();
    let mut r = String::new();
    let mut i: usize = 0;
    while i < n
        invariant
            n == ops@.len(),
            i <= n,
            r@ == rendered(op_views(ops@).take(i as int)),
        decreases n - i,
    {
        let ghost before = r@;
        let ghost prefix = op_views(ops@).take(i as int);
        let ghost o = ops@[i as int]@;
        if i == 0 {
            r.append("Path::new(");
        } else {
            r.append(".join(");
        }
        match &ops[i] {
            PathOp::Literal(s) => {
                r.append("\"");
                r.append(s.as_str());
                r.append("\"");
            },
            PathOp::Argument(s) => {
                r.append(s.as_str());
            },
        }
        r.append(")");
        proof {
            if i == 0 {
                assert(r@ =~= "Path::new("@ + op_text(o) + ")"@);
            } else {
                assert(r@ =~= before + ".join("@ + op_text(o) + ")"@);
            }
            lemma_rendered_push(prefix, o);
            assert(op_views(ops@).take(i as int + 1) =~= prefix.push(o));
            if i > 0 {
                assert(prefix.len() > 0);
            }
        }
        i = i + 1;
    }
    proof {
        assert(op_views(ops@).take(n as int) =~= op_views(ops@));
    }
    r
}

/// Appends the rendered form of every component of `path` to `string`:
/// `Path::new("..")` when `string` is still empty, `.join("..")` after that.
pub fn push_comps(string: &mut String, path: &str)
    ensures
        old(string)@.len() == 0 ==> final(string)@ == rendered(
            lit_ops(components_of(path@)),
        ),
        old(string)@.len() > 0 ==> final(string)@ == old(string)@ + joins_text(
            lit_ops(components_of(path@)),
        ),
{
    let comps = split_components(path);
    let ghost cviews = views_of(comps@);
    let n = comps.len();
    let mut j: usize = 0;
    while j < n
        invariant
            cviews == views_of(comps@),
            cviews == components_of(path@),
            n == comps@.len(),
            j <= n,
            old(string)@.len() == 0 ==> string@ == rendered(lit_ops(cviews.take(j as int))),
            old(string)@.len() > 0 ==> string@ == old(string)@ + joins_text(
                lit_ops(cviews.take(j as int)),
            ),
        decreases n - j,
    {
        let ghost before = string@;
        let ghost prefix = lit_ops(cviews.take(j as int));
        let ghost o = OpView::Literal(cviews[j as int]);
        proof {
            reveal_strlit("Path::new(");
            if old(string)@.len() == 0 && j > 0 {
                assert(prefix.len() > 0);
                assert(rendered(prefix).len() > 0);
            }
        }
        if string.as_str().is_empty() {
            string.append("Path::new(");
        } else {
            string.append(".join(");
        }
        string.append("\"");
        string.append(comps[j].as_str());
        string.append("\"");
        string.append(")");
        proof {
            lemma_rendered_push(prefix, o);
            lemma_joins_text_push(prefix, o);
            assert(lit_ops(cviews.take(j as int + 1)) =~= prefix.push(o));
            if before.len() == 0 {
                assert(string@ =~= "Path::new("@ + op_text(o) + ")"@);
                assert(old(string)@.len() == 0 && j == 0);
            } else {
                assert(string@ =~= before + ".join("@ + op_text(o) + ")"@);
            }
        }
        j = j + 1;
    }
    proof {
        assert(cviews.take(n as int) =~= cviews);
    }
}

} // verus!
