use vstd::prelude::*;
use crate::value::Value;

verus! {

/// A leaf predicate over one named column.
#[derive(Debug)]
pub enum FilterItem {
    Eq { col: String, value: Value },
    Ne { col: String, value: Value },
    Gt { col: String, value: Value },
    Gte { col: String, value: Value },
    Lt { col: String, value: Value },
    Lte { col: String, value: Value },
    In { col: String, values: Vec<Value> },
    Nin { col: String, values: Vec<Value> },
    Between { col: String, start: Value, end: Value },
    Like { col: String, expr: String },
    IsNull { col: String },
    IsNotNull { col: String },
}

/// A boolean tree of leaf predicates.
#[derive(Debug)]
pub enum FilterStmt {
    Leaf(FilterItem),
    And(Vec<FilterStmt>),
    Or(Vec<FilterStmt>),
}

/// The mathematical shape of a filter: its leaves and nested lists.
pub enum FilterTree {
    Leaf(FilterItem),
    And(Seq<FilterTree>),
    Or(Seq<FilterTree>),
}

/// The shape of a filter, its lists read as sequences.
pub open spec fn tree_of(f: FilterStmt) -> FilterTree
    decreases f,
{
    match f {
        FilterStmt::Leaf(i) => FilterTree::Leaf(i),
        FilterStmt::And(v) => FilterTree::And(
            Seq::new(
                v.len() as nat,
                |k: int|
                    if 0 <= k < v.len() {
                        tree_of(v[k])
                    } else {
                        FilterTree::And(Seq::empty())
                    },
            ),
        ),
        FilterStmt::Or(v) => FilterTree::Or(
            Seq::new(
                v.len() as nat,
                |k: int|
                    if 0 <= k < v.len() {
                        tree_of(v[k])
                    } else {
                        FilterTree::And(Seq::empty())
                    },
            ),
        ),
    }
}

impl View for FilterStmt {
    type V = FilterTree;

    open spec fn view(&self) -> FilterTree {
        tree_of(*self)
    }
}

/// The shapes of a list of filters, in order.
pub open spec fn trees(s: Seq<FilterStmt>) -> Seq<FilterTree> {
    s.map_values(|f: FilterStmt| tree_of(f))
}

/// The operands that a conjunction with `t` absorbs: the list of an `And`,
/// or `t` alone.
pub open spec fn conjuncts(t: FilterTree) -> Seq<FilterTree> {
    match t {
        FilterTree::And(s) => s,
        _ => seq![t],
    }
}

/// The operands that a disjunction with `t` absorbs.
pub open spec fn disjuncts(t: FilterTree) -> Seq<FilterTree> {
    match t {
        FilterTree::Or(s) => s,
        _ => seq![t],
    }
}

/// `a AND b`, flattening an `And` on either side by one level.
pub open spec fn and_tree(a: FilterTree, b: FilterTree) -> FilterTree {
    FilterTree::And(conjuncts(a) + conjuncts(b))
}

/// `a OR b`, flattening an `Or` on either side by one level.
pub open spec fn or_tree(a: FilterTree, b: FilterTree) -> FilterTree {
    FilterTree::Or(disjuncts(a) + disjuncts(b))
}

/// `a AND s[0] AND s[1] ...`, applied left to right.
pub open spec fn and_all_tree(a: FilterTree, s: Seq<FilterTree>) -> FilterTree
    decreases s.len(),
{
    if s.len() == 0 {
        a
    } else {
        and_tree(and_all_tree(a, s.drop_last()), s.last())
    }
}

/// `a OR s[0] OR s[1] ...`, applied left to right.
pub open spec fn or_any_tree(a: FilterTree, s: Seq<FilterTree>) -> FilterTree
    decreases s.len(),
{
    if s.len() == 0 {
        a
    } else {
        or_tree(or_any_tree(a, s.drop_last()), s.last())
    }
}

/// Conjunction is associative: `(a AND b) AND c`, `a AND (b AND c)` and the
/// one-pass `a.and_all([b, c])` all give the same flattened `And` list.
pub proof fn and_associative(a: FilterTree, b: FilterTree, c: FilterTree)
    ensures
        and_tree(and_tree(a, b), c) == and_all_tree(a, seq![b, c]),
        and_tree(and_tree(a, b), c) == and_tree(a, and_tree(b, c)),
        and_tree(and_tree(a, b), c) == FilterTree::And(conjuncts(a) + conjuncts(b) + conjuncts(c)),
{
    assert(seq![b, c].drop_last() =~= seq![b]);
    assert(seq![b].drop_last() =~= Seq::<FilterTree>::empty());
    assert(and_all_tree(a, Seq::<FilterTree>::empty()) == a);
    assert(and_all_tree(a, seq![b]) == and_tree(a, b));
    assert(and_all_tree(a, seq![b, c]) == and_tree(and_all_tree(a, seq![b]), c));
    assert(conjuncts(a) + conjuncts(b) + conjuncts(c) =~= conjuncts(a) + (conjuncts(b) + conjuncts(c)));
}

/// Disjunction is associative in the same way as conjunction.
pub proof fn or_associative(a: FilterTree, b: FilterTree, c: FilterTree)
    ensures
        or_tree(or_tree(a, b), c) == or_any_tree(a, seq![b, c]),
        or_tree(or_tree(a, b), c) == or_tree(a, or_tree(b, c)),
        or_tree(or_tree(a, b), c) == FilterTree::Or(disjuncts(a) + disjuncts(b) + disjuncts(c)),
{
    assert(seq![b, c].drop_last() =~= seq![b]);
    assert(seq![b].drop_last() =~= Seq::<FilterTree>::empty());
    assert(or_any_tree(a, Seq::<FilterTree>::empty()) == a);
    assert(or_any_tree(a, seq![b]) == or_tree(a, b));
    assert(or_any_tree(a, seq![b, c]) == or_tree(or_any_tree(a, seq![b]), c));
    assert(disjuncts(a) + disjuncts(b) + disjuncts(c) =~= disjuncts(a) + (disjuncts(b) + disjuncts(c)));
}

/// `(a AND b) OR c` keeps the conjunction as one operand of the `Or`: an
/// `Or` never absorbs the list of an `And`. When neither `a` nor `b` is an
/// `And`, the result is exactly `Or([And([a, b]), c])`.
pub proof fn and_then_or_keeps_nesting(a: FilterTree, b: FilterTree, c: FilterTree)
    requires
        !(c is Or),
    ensures
        or_tree(and_tree(a, b), c) == FilterTree::Or(seq![and_tree(a, b), c]),
        !(a is And) && !(b is And) ==> or_tree(and_tree(a, b), c) == FilterTree::Or(
            seq![FilterTree::And(seq![a, b]), c],
        ),
{
    assert(disjuncts(and_tree(a, b)) + disjuncts(c) =~= seq![and_tree(a, b), c]);
    if !(a is And) && !(b is And) {
        assert(conjuncts(a) + conjuncts(b) =~= seq![a, b]);
    }
}

proof fn lemma_list_view(v: Vec<FilterStmt>)
    ensures
        FilterStmt::And(v)@ == FilterTree::And(trees(v@)),
        FilterStmt::Or(v)@ == FilterTree::Or(trees(v@)),
{
    assert(FilterStmt::And(v)@->And_0 =~= trees(v@));
    assert(FilterStmt::Or(v)@->Or_0 =~= trees(v@));
}

impl FilterStmt {
    /// The operands of this filter as a conjunction, moved out.
    fn into_conjuncts(self) -> (r: Vec<FilterStmt>)
        ensures
            trees(r@) == conjuncts(self@),
    {
        match self {
            FilterStmt::And(v) => {
                proof {
                    lemma_list_view(v);
                }
                v
            },
            s => {
                let ghost g = s;
                let r = vec![s];
                assert(trees(r@) =~= seq![g@]);
                r
            },
        }
    }

    /// The operands of this filter as a disjunction, moved out.
    fn into_disjuncts(self) -> (r: Vec<FilterStmt>)
        ensures
            trees(r@) == disjuncts(self@),
    {
        match self {
            FilterStmt::Or(v) => {
                proof {
                    lemma_list_view(v);
                }
                v
            },
            s => {
                let ghost g = s;
                let r = vec![s];
                assert(trees(r@) =~= seq![g@]);
                r
            },
        }
    }

    /// `self AND other`.
    pub fn and(self, other: FilterStmt) -> (r: FilterStmt)
        ensures
            r@ == and_tree(self@, other@),
    {
        let mut list = self.into_conjuncts();
        let mut rest = other.into_conjuncts();
        let ghost l0 = list@;
        let ghost r0 = rest@;
        list.append(&mut rest);
        assert(trees(list@) =~= trees(l0) + trees(r0));
        proof {
            lemma_list_view(list);
        }
        FilterStmt::And(list)
    }

    /// `self OR other`.
    pub fn or(self, other: FilterStmt) -> (r: FilterStmt)
        ensures
            r@ == or_tree(self@, other@),
    {
        let mut list = self.into_disjuncts();
        let mut rest = other.into_disjuncts();
        let ghost l0 = list@;
        let ghost r0 = rest@;
        list.append(&mut rest);
        assert(trees(list@) =~= trees(l0) + trees(r0));
        proof {
            lemma_list_view(list);
        }
        FilterStmt::Or(list)
    }

    /// `self AND list[0] AND list[1] ...`, built in one pass; `self` alone
    /// when `list` is empty.
    pub fn and_all(self, list: Vec<FilterStmt>) -> (r: FilterStmt)
        ensures
            r@ == and_all_tree(self@, trees(list@)),
    {
        let ghost orig = list@;
        let ghost start = self@;
        if list.len() == 0 {
            return self;
        }
        let mut rest = list;
        let first = rest.remove(0);
        let ghost f0 = first@;
        let mut acc = self.into_conjuncts();
        let mut more = first.into_conjuncts();
        let ghost a0 = acc@;
        let ghost m0 = more@;
        acc.append(&mut more);
        assert(trees(acc@) =~= trees(a0) + trees(m0));
        assert(trees(orig.subrange(0, 1)).drop_last() =~= Seq::<FilterTree>::empty());
        assert(trees(orig.subrange(0, 1)).last() == f0);
        assert(and_all_tree(start, Seq::<FilterTree>::empty()) == start);
        assert(and_all_tree(start, trees(orig.subrange(0, 1))) == and_tree(start, f0));
        while rest.len() > 0
            invariant
                1 <= orig.len() - rest@.len() <= orig.len(),
                rest@ == orig.subrange(orig.len() - rest@.len(), orig.len() as int),
                FilterTree::And(trees(acc@)) == and_all_tree(
                    start,
                    trees(orig.subrange(0, orig.len() - rest@.len())),
                ),
            decreases rest.len(),
        {
            let ghost k = orig.len() - rest@.len();
            let ghost before = acc@;
            let item = rest.remove(0);
            let ghost it = item@;
            let mut more = item.into_conjuncts();
            let ghost m = more@;
            acc.append(&mut more);
            assert(trees(acc@) =~= trees(before) + trees(m));
            assert(rest@ =~= orig.subrange(k + 1, orig.len() as int));
            let ghost pre = trees(orig.subrange(0, k + 1));
            assert(pre.drop_last() =~= trees(orig.subrange(0, k)));
            assert(pre.last() == it);
            assert(conjuncts(FilterTree::And(trees(before))) == trees(before));
        }
        assert(orig.subrange(0, orig.len() as int) =~= orig);
        proof {
            lemma_list_view(acc);
        }
        FilterStmt::And(acc)
    }

    /// `self OR list[0] OR list[1] ...`, built in one pass; `self` alone
    /// when `list` is empty.
    pub fn or_any(self, list: Vec<FilterStmt>) -> (r: FilterStmt)
        ensures
            r@ == or_any_tree(self@, trees(list@)),
    {
        let ghost orig = list@;
        let ghost start = self@;
        if list.len() == 0 {
            return self;
        }
        let mut rest = list;
        let first = rest.remove(0);
        let ghost f0 = first@;
        let mut acc = self.into_disjuncts();
        let mut more = first.into_disjuncts();
        let ghost a0 = acc@;
        let ghost m0 = more@;
        acc.append(&mut more);
        assert(trees(acc@) =~= trees(a0) + trees(m0));
        assert(trees(orig.subrange(0, 1)).drop_last() =~= Seq::<FilterTree>::empty());
        assert(trees(orig.subrange(0, 1)).last() == f0);
        assert(or_any_tree(start, Seq::<FilterTree>::empty()) == start);
        assert(or_any_tree(start, trees(orig.subrange(0, 1))) == or_tree(start, f0));
        while rest.len() > 0
            invariant
                1 <= orig.len() - rest@.len() <= orig.len(),
                rest@ == orig.subrange(orig.len() - rest@.len(), orig.len() as int),
                FilterTree::Or(trees(acc@)) == or_any_tree(
                    start,
                    trees(orig.subrange(0, orig.len() - rest@.len())),
                ),
            decreases rest.len(),
        {
            let ghost k = orig.len() - rest@.len();
            let ghost before = acc@;
            let item = rest.remove(0);
            let ghost it = item@;
            let mut more = item.into_disjuncts();
            let ghost m = more@;
            acc.append(&mut more);
            assert(trees(acc@) =~= trees(before) + trees(m));
            assert(rest@ =~= orig.subrange(k + 1, orig.len() as int));
            let ghost pre = trees(orig.subrange(0, k + 1));
            assert(pre.drop_last() =~= trees(orig.subrange(0, k)));
            assert(pre.last() == it);
            assert(disjuncts(FilterTree::Or(trees(before))) == trees(before));
        }
        assert(orig.subrange(0, orig.len() as int) =~= orig);
        proof {
            lemma_list_view(acc);
        }
        FilterStmt::Or(acc)
    }
}

} // verus!
