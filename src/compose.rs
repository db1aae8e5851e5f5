use vstd::prelude::*;
use crate::filter::{
    and_all_tree, and_tree, conjuncts, disjuncts, or_any_tree, or_tree, trees, FilterStmt, FilterTree,
};

verus! {

/// The shape of an optional filter.
pub open spec fn opt_tree(o: Option<FilterStmt>) -> Option<FilterTree> {
    match o {
        Some(f) => Some(f@),
        None => None,
    }
}

/// The filter of a statement after `AND f`: `f` alone when there was none.
pub open spec fn with_and(o: Option<FilterTree>, f: FilterTree) -> FilterTree {
    match o {
        Some(x) => and_tree(x, f),
        None => f,
    }
}

/// The filter of a statement after `OR f`: `f` alone when there was none.
pub open spec fn with_or(o: Option<FilterTree>, f: FilterTree) -> FilterTree {
    match o {
        Some(x) => or_tree(x, f),
        None => f,
    }
}

/// The filter of a statement after `AND s[0] AND s[1] ...`.
pub open spec fn with_and_all(o: Option<FilterTree>, s: Seq<FilterTree>) -> Option<FilterTree>
    decreases s.len(),
{
    if s.len() == 0 {
        o
    } else {
        Some(with_and(with_and_all(o, s.drop_last()), s.last()))
    }
}

/// The filter of a statement after `OR s[0] OR s[1] ...`.
pub open spec fn with_or_any(o: Option<FilterTree>, s: Seq<FilterTree>) -> Option<FilterTree>
    decreases s.len(),
{
    if s.len() == 0 {
        o
    } else {
        Some(with_or(with_or_any(o, s.drop_last()), s.last()))
    }
}

/// One filter-building call on a statement: `and`, `or`, `and_all` or
/// `or_any`, with the shapes it is given.
pub enum FilterStep {
    And(FilterTree),
    Or(FilterTree),
    AndAll(Seq<FilterTree>),
    OrAny(Seq<FilterTree>),
}

/// A statement's filter after one call.
pub open spec fn after_step(o: Option<FilterTree>, st: FilterStep) -> Option<FilterTree> {
    match st {
        FilterStep::And(f) => Some(with_and(o, f)),
        FilterStep::Or(f) => Some(with_or(o, f)),
        FilterStep::AndAll(s) => with_and_all(o, s),
        FilterStep::OrAny(s) => with_or_any(o, s),
    }
}

/// A statement's filter after the calls `steps`, in order.
pub open spec fn after_steps(o: Option<FilterTree>, steps: Seq<FilterStep>) -> Option<FilterTree>
    decreases steps.len(),
{
    if steps.len() == 0 {
        o
    } else {
        after_step(after_steps(o, steps.drop_last()), steps.last())
    }
}

/// The leaf `l` stands somewhere in the tree `t`.
pub open spec fn has_leaf(t: FilterTree, l: FilterTree) -> bool
    decreases t,
{
    t == l || match t {
        FilterTree::Leaf(_) => false,
        FilterTree::And(s) => exists|k: int| 0 <= k < s.len() && has_leaf(#[trigger] s[k], l),
        FilterTree::Or(s) => exists|k: int| 0 <= k < s.len() && has_leaf(#[trigger] s[k], l),
    }
}

proof fn lemma_leaf_kept_list(t: FilterTree, l: FilterTree, s: Seq<FilterTree>, rest: Seq<FilterTree>)
    requires
        l is Leaf,
        has_leaf(t, l),
        s == seq![t] || (t is And && s == t->And_0) || (t is Or && s == t->Or_0),
    ensures
        exists|k: int| 0 <= k < (s + rest).len() && has_leaf(#[trigger] (s + rest)[k], l),
{
    if s == seq![t] {
        assert((s + rest)[0] == t);
    } else {
        let k = choose|k: int| 0 <= k < s.len() && has_leaf(#[trigger] s[k], l);
        assert((s + rest)[k] == s[k]);
    }
}

proof fn lemma_leaf_kept_step(t: FilterTree, l: FilterTree, g: FilterTree)
    requires
        l is Leaf,
        has_leaf(t, l),
    ensures
        has_leaf(and_tree(t, g), l),
        has_leaf(or_tree(t, g), l),
{
    lemma_leaf_kept_list(t, l, conjuncts(t), conjuncts(g));
    lemma_leaf_kept_list(t, l, disjuncts(t), disjuncts(g));
    let a = and_tree(t, g);
    let o = or_tree(t, g);
    assert(a->And_0 == conjuncts(t) + conjuncts(g));
    assert(o->Or_0 == disjuncts(t) + disjuncts(g));
}

proof fn lemma_leaf_kept_all(t: FilterTree, l: FilterTree, s: Seq<FilterTree>)
    requires
        l is Leaf,
        has_leaf(t, l),
    ensures
        has_leaf(and_all_tree(t, s), l),
        has_leaf(or_any_tree(t, s), l),
    decreases s.len(),
{
    if s.len() > 0 {
        lemma_leaf_kept_all(t, l, s.drop_last());
        lemma_leaf_kept_step(and_all_tree(t, s.drop_last()), l, s.last());
        lemma_leaf_kept_step(or_any_tree(t, s.drop_last()), l, s.last());
    }
}

/// A statement that has a filter keeps one through any sequence of `and`,
/// `or`, `and_all` and `or_any` calls, and every leaf of the filter it
/// started with stays in it. So a deletion built by `Delete::where_`, which
/// always has a filter, never becomes a deletion of every row.
pub proof fn filter_survives_steps(f: FilterTree, steps: Seq<FilterStep>, l: FilterTree)
    requires
        l is Leaf,
        has_leaf(f, l),
    ensures
        after_steps(Some(f), steps) matches Some(g) && has_leaf(g, l),
    decreases steps.len(),
{
    if steps.len() > 0 {
        filter_survives_steps(f, steps.drop_last(), l);
        let g = after_steps(Some(f), steps.drop_last())->Some_0;
        match steps.last() {
            FilterStep::And(h) => lemma_leaf_kept_step(g, l, h),
            FilterStep::Or(h) => lemma_leaf_kept_step(g, l, h),
            FilterStep::AndAll(s) => {
                lemma_and_all_some(g, s);
                lemma_leaf_kept_all(g, l, s);
            },
            FilterStep::OrAny(s) => {
                lemma_or_any_some(g, s);
                lemma_leaf_kept_all(g, l, s);
            },
        }
    }
}

proof fn lemma_and_all_some(x: FilterTree, s: Seq<FilterTree>)
    ensures
        with_and_all(Some(x), s) == Some(and_all_tree(x, s)),
    decreases s.len(),
{
    if s.len() > 0 {
        lemma_and_all_some(x, s.drop_last());
    }
}

proof fn lemma_and_all_none(s: Seq<FilterTree>)
    requires
        s.len() > 0,
    ensures
        with_and_all(None, s) == Some(and_all_tree(s[0], s.drop_first())),
    decreases s.len(),
{
    if s.len() == 1 {
        assert(s.drop_last() =~= Seq::<FilterTree>::empty());
        assert(s.drop_first() =~= Seq::<FilterTree>::empty());
    } else {
        lemma_and_all_none(s.drop_last());
        assert(s.drop_last().drop_first() =~= s.drop_first().drop_last());
        assert(s.drop_first().last() == s.last());
    }
}

proof fn lemma_or_any_some(x: FilterTree, s: Seq<FilterTree>)
    ensures
        with_or_any(Some(x), s) == Some(or_any_tree(x, s)),
    decreases s.len(),
{
    if s.len() > 0 {
        lemma_or_any_some(x, s.drop_last());
    }
}

proof fn lemma_or_any_none(s: Seq<FilterTree>)
    requires
        s.len() > 0,
    ensures
        with_or_any(None, s) == Some(or_any_tree(s[0], s.drop_first())),
    decreases s.len(),
{
    if s.len() == 1 {
        assert(s.drop_last() =~= Seq::<FilterTree>::empty());
        assert(s.drop_first() =~= Seq::<FilterTree>::empty());
    } else {
        lemma_or_any_none(s.drop_last());
        assert(s.drop_last().drop_first() =~= s.drop_first().drop_last());
        assert(s.drop_first().last() == s.last());
    }
}

/// A statement's filter after `AND f`.
pub fn conjoin(o: Option<FilterStmt>, f: FilterStmt) -> (r: FilterStmt)
    ensures
        r@ == with_and(opt_tree(o), f@),
{
    match o {
        Some(x) => x.and(f),
        None => f,
    }
}

/// A statement's filter after `OR f`.
pub fn disjoin(o: Option<FilterStmt>, f: FilterStmt) -> (r: FilterStmt)
    ensures
        r@ == with_or(opt_tree(o), f@),
{
    match o {
        Some(x) => x.or(f),
        None => f,
    }
}

/// A statement's filter after `AND` with each of `list`, in one pass.
pub fn conjoin_all(o: Option<FilterStmt>, list: Vec<FilterStmt>) -> (r: Option<FilterStmt>)
    ensures
        opt_tree(r) == with_and_all(opt_tree(o), trees(list@)),
{
    let ghost s = trees(list@);
    match o {
        Some(x) => {
            proof {
                lemma_and_all_some(x@, s);
            }
            Some(x.and_all(list))
        },
        None => {
            if list.len() == 0 {
                return None;
            }
            let mut rest = list;
            let first = rest.remove(0);
            proof {
                lemma_and_all_none(s);
                assert(trees(rest@) =~= s.drop_first());
            }
            Some(first.and_all(rest))
        },
    }
}

/// A statement's filter after `OR` with each of `list`, in one pass.
pub fn disjoin_all(o: Option<FilterStmt>, list: Vec<FilterStmt>) -> (r: Option<FilterStmt>)
    ensures
        opt_tree(r) == with_or_any(opt_tree(o), trees(list@)),
{
    let ghost s = trees(list@);
    match o {
        Some(x) => {
            proof {
                lemma_or_any_some(x@, s);
            }
            Some(x.or_any(list))
        },
        None => {
            if list.len() == 0 {
                return None;
            }
            let mut rest = list;
            let first = rest.remove(0);
            proof {
                lemma_or_any_none(s);
                assert(trees(rest@) =~= s.drop_first());
            }
            Some(first.or_any(rest))
        },
    }
}

} // verus!
