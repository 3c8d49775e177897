//! Structural path components of a template fragment.
//!
//! Only the ASCII separators `/` and `\` are recognized. A component is a
//! maximal non-empty run of non-separator characters, so repeated separators
//! collapse and leading or trailing separators vanish.

use vstd::prelude::*;
use vstd::string::*;

verus! {

/// The path separators the template analysis recognizes.
pub open spec fn is_sep(c: char) -> bool {
    c == '/' || c == '\\'
}

/// Executable mirror of [`is_sep`].
pub fn sep_char(c: char) -> (r: bool)
    ensures
        r == is_sep(c),
{
    c == '/' || c == '\\'
}

/// Holds when no character of `s` is a path separator.
pub open spec fn sep_free(s: Seq<char>) -> bool {
    forall|i: int| 0 <= i < s.len() ==> !is_sep(#[trigger] s[i])
}

/// The path components of `s`: its maximal non-empty runs of non-separator
/// characters, in order.
pub open spec fn components_of(s: Seq<char>) -> Seq<Seq<char>>
    decreases s.len(),
{
    if s.len() == 0 {
        Seq::empty()
    } else {
        let head = s.drop_last();
        let c = s.last();
        let rest = components_of(head);
        if is_sep(c) {
            rest
        } else if head.len() == 0 || is_sep(head.last()) {
            rest.push(seq![c])
        } else {
            rest.update(rest.len() - 1, rest.last().push(c))
        }
    }
}

/// Every component is non-empty and free of separators, and a string that
/// ends in a non-separator character has at least one component.
pub proof fn lemma_components_wf(s: Seq<char>)
    ensures
        forall|i: int|
            0 <= i < components_of(s).len() ==> (#[trigger] components_of(s)[i]).len() > 0
                && sep_free(components_of(s)[i]),
        s.len() > 0 && !is_sep(s.last()) ==> components_of(s).len() > 0,
    decreases s.len(),
{
    if s.len() > 0 {
        let head = s.drop_last();
        let c = s.last();
        lemma_components_wf(head);
        let rest = components_of(head);
        if is_sep(c) {
        } else if head.len() == 0 || is_sep(head.last()) {
            assert forall|i: int|
                0 <= i < components_of(s).len() implies (#[trigger] components_of(s)[i]).len() > 0
                && sep_free(components_of(s)[i]) by {
                if i == rest.len() {
                    assert(components_of(s)[i] == seq![c]);
                    assert(seq![c][0] == c);
                }
            }
        } else {
            let grown = rest.last().push(c);
            assert(sep_free(grown)) by {
                assert forall|i: int| 0 <= i < grown.len() implies !is_sep(#[trigger] grown[i]) by {
                    if i < grown.len() - 1 {
                        assert(grown[i] == rest.last()[i]);
                    } else {
                        assert(grown[i] == c);
                    }
                }
            }
            assert forall|i: int|
                0 <= i < components_of(s).len() implies (#[trigger] components_of(s)[i]).len() > 0
                && sep_free(components_of(s)[i]) by {
                if i == rest.len() - 1 {
                    assert(components_of(s)[i] == grown);
                } else {
                    assert(components_of(s)[i] == rest[i]);
                }
            }
        }
    }
}

/// Splitting at a boundary that at least one side marks with a separator
/// (or leaves empty) splits the component walk as well.
pub proof fn lemma_components_concat(a: Seq<char>, b: Seq<char>)
    requires
        a.len() == 0 || b.len() == 0 || is_sep(a.last()) || is_sep(b[0]),
    ensures
        components_of(a + b) == components_of(a) + components_of(b),
    decreases b.len(),
{
    if b.len() == 0 {
        assert(a + b =~= a);
        assert(components_of(a) + components_of(b) =~= components_of(a));
    } else {
        let b1 = b.drop_last();
        let c = b.last();
        if b1.len() > 0 {
            assert(b1[0] == b[0]);
        }
        lemma_components_concat(a, b1);
        assert((a + b).drop_last() =~= a + b1);
        assert((a + b).last() == c);
        let ra = components_of(a);
        let r1 = components_of(b1);
        if is_sep(c) {
            assert(components_of(a + b) == ra + r1);
            assert(components_of(b) == r1);
        } else if b1.len() == 0 {
            // b is a single non-separator character, so the requires forces
            // `a` to be empty or to end in a separator.
            assert(a + b1 =~= a);
            assert(b =~= seq![c]);
            assert(components_of(b) =~= Seq::<Seq<char>>::empty().push(seq![c]));
            assert(a.len() == 0 || is_sep(a.last()));
            assert(components_of(a + b) == ra.push(seq![c]));
            assert(ra.push(seq![c]) =~= ra + components_of(b));
        } else {
            assert((a + b1).len() > 0);
            assert((a + b1).last() == b1.last());
            if is_sep(b1.last()) {
                assert(components_of(a + b) == (ra + r1).push(seq![c]));
                assert(components_of(b) == r1.push(seq![c]));
                assert((ra + r1).push(seq![c]) =~= ra + r1.push(seq![c]));
            } else {
                lemma_components_wf(b1);
                assert(r1.len() > 0);
                let grown = r1.last().push(c);
                assert((ra + r1).last() == r1.last());
                assert(components_of(a + b) == (ra + r1).update(ra.len() + r1.len() - 1, grown));
                assert(components_of(b) == r1.update(r1.len() - 1, grown));
                assert((ra + r1).update(ra.len() + r1.len() - 1, grown) =~= ra + r1.update(
                    r1.len() - 1,
                    grown,
                ));
            }
        }
    }
}

/// The views of a sequence of owned strings.
pub open spec fn views_of(v: Seq<String>) -> Seq<Seq<char>> {
    v.map_values(|t: String| t@)
}

pub proof fn lemma_views_of_push(v: Seq<String>, x: String)
    ensures
        views_of(v.push(x)) == views_of(v).push(x@),
{
    assert(views_of(v.push(x)) =~= views_of(v).push(x@));
}

/// Splits `s` into its path components.
pub fn split_components(s: &str) -> (comps: Vec<String>)
    ensures
        views_of(comps@) == components_of(s@),
{
    let n = s.unicode_len();
    let mut comps: Vec<String> = Vec::new();
    let mut run_start: usize = 0;
    let mut in_run: bool = false;
    let mut i: usize = 0;
    while i < n
        invariant
            s@.len() == n as nat,
            i <= n,
            in_run ==> run_start < i,
            in_run ==> views_of(comps@).push(s@.subrange(run_start as int, i as int))
                == components_of(s@.take(i as int)),
            in_run ==> !is_sep(s@[i as int - 1]),
            !in_run ==> views_of(comps@) == components_of(s@.take(i as int)),
            !in_run ==> (i == 0 || is_sep(s@[i as int - 1])),
        decreases n - i,
    {
        let c = s.get_char(i);
        proof {
            assert(s@.take(i as int + 1).drop_last() =~= s@.take(i as int));
            assert(s@.take(i as int + 1).last() == s@[i as int]);
        }
        if sep_char(c) {
            if in_run {
                let comp = s.substring_char(run_start, i);
                let owned = String::from_str(comp);
                proof {
                    lemma_views_of_push(comps@, owned);
                }
                comps.push(owned);
                in_run = false;
                proof {
                    assert(components_of(s@.take(i as int + 1)) == components_of(
                        s@.take(i as int),
                    ));
                    assert(views_of(comps@) == components_of(s@.take(i as int)));
                }
            }
        } else {
            if !in_run {
                run_start = i;
                in_run = true;
                proof {
                    let one = s@.subrange(i as int, i as int + 1);
                    assert(one =~= seq![s@[i as int]]);
                    assert(components_of(s@.take(i as int + 1)) == components_of(
                        s@.take(i as int),
                    ).push(seq![s@[i as int]]));
                }
            } else {
                proof {
                    let cur = s@.subrange(run_start as int, i as int);
                    let grown = s@.subrange(run_start as int, i as int + 1);
                    assert(grown =~= cur.push(s@[i as int]));
                    let rest = components_of(s@.take(i as int));
                    assert(rest == views_of(comps@).push(cur));
                    assert(rest.len() > 0);
                    assert(rest.last() == cur);
                    assert(components_of(s@.take(i as int + 1)) == rest.update(
                        rest.len() - 1,
                        cur.push(s@[i as int]),
                    ));
                    assert(rest.update(rest.len() - 1, grown) =~= views_of(comps@).push(grown));
                }
            }
        }
        i = i + 1;
    }
    if in_run {
        let comp = s.substring_char(run_start, n);
        let owned = String::from_str(comp);
        proof {
            lemma_views_of_push(comps@, owned);
        }
        comps.push(owned);
    }
    proof {
        assert(s@.take(n as int) =~= s@);
    }
    comps
}

} // verus!
