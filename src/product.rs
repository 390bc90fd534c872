//! Cartesian enumeration of candidate lists.
use vstd::prelude::*;
use itertools::Itertools;

verus! {

/// Every selection of one element from each list, with the first list
/// varying slowest and the last fastest. No lists give one empty selection.
pub open spec fn product<A>(lists: Seq<Seq<A>>) -> Seq<Seq<A>>
    decreases lists.len(),
{
    if lists.len() == 0 {
        seq![Seq::empty()]
    } else {
        let prev = product(lists.drop_last());
        let c = lists.last();
        Seq::new(prev.len() * c.len(), |k: int| prev[k / c.len() as int].push(c[k % c.len() as int]))
    }
}

/// The product of the lengths of the lists.
pub open spec fn count_product<A>(lists: Seq<Seq<A>>) -> nat
    decreases lists.len(),
{
    if lists.len() == 0 {
        1
    } else {
        count_product(lists.drop_last()) * lists.last().len()
    }
}

/// The views of a sequence of sequences of strings.
pub open spec fn nested(v: Seq<Vec<String>>) -> Seq<Seq<Seq<char>>> {
    v.map_values(|l: Vec<String>| l@.map_values(|s: String| s@))
}

/// The number of selections is the product of the list lengths.
pub proof fn lemma_product_len<A>(lists: Seq<Seq<A>>)
    ensures
        product(lists).len() == count_product(lists),
    decreases lists.len(),
{
    if lists.len() > 0 {
        lemma_product_len(lists.drop_last());
    }
}

/// Index arithmetic for a row-major grid of `p` rows and `c` columns.
pub proof fn lemma_grid_index(k: int, p: int, c: int)
    requires
        0 <= k < p * c,
        c > 0,
    ensures
        0 <= k / c < p,
        0 <= k % c < c,
{
    vstd::arithmetic::div_mod::lemma_fundamental_div_mod(k, c);
    vstd::arithmetic::div_mod::lemma_mod_pos_bound(k, c);
    vstd::arithmetic::div_mod::lemma_div_pos_is_pos(k, c);
    let q = k / c;
    let r = k % c;
    assert(q < p) by (nonlinear_arith)
        requires
            k == c * q + r,
            0 <= r,
            k < p * c,
            c > 0,
    ;
}

/// Every selection picks exactly one element from each list.
pub proof fn lemma_product_elem_len<A>(lists: Seq<Seq<A>>)
    ensures
        forall|k: int|
            0 <= k < product(lists).len() ==> #[trigger] product(lists)[k].len() == lists.len(),
    decreases lists.len(),
{
    if lists.len() > 0 {
        lemma_product_elem_len(lists.drop_last());
        let prev = product(lists.drop_last());
        let c = lists.last();
        assert forall|k: int| 0 <= k < product(lists).len() implies #[trigger] product(
            lists,
        )[k].len() == lists.len() by {
            lemma_grid_index(k, prev.len() as int, c.len() as int);
        }
    }
}

/// No two elements of the sequence are equal.
pub open spec fn no_duplicates<A>(s: Seq<A>) -> bool {
    forall|i: int, j: int| 0 <= i < j < s.len() ==> s[i] != s[j]
}

/// Grid positions with equal row and column are equal.
pub proof fn lemma_grid_unique(k1: int, k2: int, c: int)
    requires
        0 <= k1,
        0 <= k2,
        c > 0,
        k1 / c == k2 / c,
        k1 % c == k2 % c,
    ensures
        k1 == k2,
{
    vstd::arithmetic::div_mod::lemma_fundamental_div_mod(k1, c);
    vstd::arithmetic::div_mod::lemma_fundamental_div_mod(k2, c);
}

/// When no list repeats an element, no selection is repeated.
pub proof fn lemma_product_distinct<A>(lists: Seq<Seq<A>>)
    requires
        forall|i: int| 0 <= i < lists.len() ==> no_duplicates(#[trigger] lists[i]),
    ensures
        no_duplicates(product(lists)),
    decreases lists.len(),
{
    if lists.len() > 0 {
        let pre = lists.drop_last();
        assert forall|i: int| 0 <= i < pre.len() implies no_duplicates(#[trigger] pre[i]) by {
            assert(pre[i] == lists[i]);
        }
        lemma_product_distinct(pre);
        let prev = product(pre);
        let c = lists.last();
        assert(no_duplicates(c)) by {
            assert(c == lists[lists.len() - 1]);
        }
        let p = product(lists);
        assert forall|k1: int, k2: int| 0 <= k1 < k2 < p.len() implies p[k1] != p[k2] by {
            lemma_grid_index(k1, prev.len() as int, c.len() as int);
            lemma_grid_index(k2, prev.len() as int, c.len() as int);
            let q1 = k1 / c.len() as int;
            let r1 = k1 % c.len() as int;
            let q2 = k2 / c.len() as int;
            let r2 = k2 % c.len() as int;
            if p[k1] == p[k2] {
                assert(p[k1] == prev[q1].push(c[r1]));
                assert(p[k2] == prev[q2].push(c[r2]));
                assert(p[k1].last() == c[r1]);
                assert(p[k2].last() == c[r2]);
                assert(p[k1].drop_last() =~= prev[q1]);
                assert(p[k2].drop_last() =~= prev[q2]);
                assert(r1 == r2);
                assert(q1 == q2);
                lemma_grid_unique(k1, k2, c.len() as int);
            }
        }
    }
}

/// Relies on itertools::Itertools::multi_cartesian_product: it yields every
/// selection of one item per list, the last list varying fastest, and a
/// single empty selection when there are no lists.
#[verifier::external_body]
pub(crate) fn cartesian_product(lists: &Vec<Vec<String>>) -> (r: Vec<Vec<String>>)
    ensures
        nested(r@) == product(nested(lists@)),
{
    lists.iter().multi_cartesian_product().map(|v| v.into_iter().cloned().collect()).collect()
}

} // verus!
