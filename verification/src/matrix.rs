//! The generation matrix: named dimensions and their cartesian product.

use vstd::prelude::*;
use vstd::string::*;
use itertools::Itertools;
use crate::cli::Flavor;

verus! {

/// One named dimension of a matrix with its values in declared order.
#[derive(Clone, Debug, PartialEq, Eq)]
pub struct Dimension {
    pub key: String,
    pub values: Vec<String>,
}

/// The dimensions of a matrix in declared order.
#[derive(Clone, Debug, PartialEq, Eq)]
pub struct Matrix {
    pub dimensions: Vec<Dimension>,
}

/// Why a matrix cannot be built or expanded.
#[derive(Clone, Copy, Debug, PartialEq, Eq, Structural)]
pub enum MatrixError {
    /// The single flavor asked for is not among the declared flavor values.
    FlavorNotInMatrix,
    /// A value of the flavor dimension names no flavor.
    InvalidFlavorValue,
    /// A matrix was declared without a filename template.
    MatrixFilenameMissing,
}

/// The product of all lengths; 1 for no lengths.
pub open spec fn product(lens: Seq<nat>) -> nat
    decreases lens.len(),
{
    if lens.len() == 0 {
        1
    } else {
        product(lens.drop_last()) * lens.last()
    }
}

/// How many combinations dimensions of these lengths have: their product,
/// and none at all where no dimension is declared.
pub open spec fn combination_count(lens: Seq<nat>) -> nat {
    if lens.len() == 0 {
        0
    } else {
        product(lens)
    }
}

/// How many consecutive combinations share one value of dimension `d`: the
/// product of the lengths of the dimensions declared after it.
pub open spec fn stride(lens: Seq<nat>, d: int) -> nat {
    product(lens.skip(d + 1))
}

/// The position, within dimension `d`, of the value that combination `k`
/// selects. The last declared dimension varies fastest.
pub open spec fn selected(lens: Seq<nat>, k: int, d: int) -> int {
    (k / (stride(lens, d) as int)) % (lens[d] as int)
}

/// The lengths of a list of pools.
pub open spec fn pool_lens(pools: Seq<Vec<(String, String)>>) -> Seq<nat> {
    Seq::new(pools.len(), |d: int| pools[d]@.len())
}

/// `Itertools::multi_cartesian_product`, collected: one list per
/// combination, taking one item from each pool, in the order in which the
/// last pool varies fastest; nothing at all for an empty list of pools.
#[verifier::external_body]
fn cartesian_product(pools: Vec<Vec<(String, String)>>) -> (r: Vec<Vec<(String, String)>>)
    requires
        combination_count(pool_lens(pools@)) <= usize::MAX,
    ensures
        r@.len() == combination_count(pool_lens(pools@)),
        forall|k: int| 0 <= k < r@.len() ==> (#[trigger] r@[k])@.len() == pools@.len(),
        forall|k: int, d: int|
            0 <= k < r@.len() && 0 <= d < pools@.len() ==> {
                &&& 0 <= selected(pool_lens(pools@), k, d) < pools@[d]@.len()
                &&& (#[trigger] r@[k]@[d]) == pools@[d]@[selected(pool_lens(pools@), k, d)]
            },
{
    pools.into_iter().multi_cartesian_product().collect()
}

/// The views of a list of strings.
pub open spec fn texts(values: Seq<String>) -> Seq<Seq<char>> {
    Seq::new(values.len(), |i: int| values[i]@)
}

impl Dimension {
    /// The values of the dimension as character sequences.
    pub open spec fn values_view(&self) -> Seq<Seq<char>> {
        texts(self.values@)
    }

    /// Whether a single-flavor request narrows this dimension.
    pub open spec fn is_restricted_by(&self, only_flavor: Option<Flavor>) -> bool {
        only_flavor is Some && self.key@ == "flavor"@
    }

    /// The values that the dimension contributes under a single-flavor
    /// request: the one flavor for the flavor dimension, else the declared list.
    pub open spec fn restricted_values(&self, only_flavor: Option<Flavor>) -> Seq<Seq<char>> {
        if self.is_restricted_by(only_flavor) {
            seq![only_flavor->Some_0.identifier_spec()]
        } else {
            self.values_view()
        }
    }

    /// Whether a single-flavor request asks for a flavor that the dimension
    /// does not declare.
    pub open spec fn conflicts_with(&self, only_flavor: Option<Flavor>) -> bool {
        self.is_restricted_by(only_flavor) && !self.values_view().contains(
            only_flavor->Some_0.identifier_spec(),
        )
    }
}

fn clone_strings(values: &Vec<String>) -> (r: Vec<String>)
    ensures
        texts(r@) == texts(values@),
{
    let mut out: Vec<String> = Vec::new();
    let mut i: usize = 0;
    while i < values.len()
        invariant
            i <= values@.len(),
            out@.len() == i,
            forall|j: int| 0 <= j < i ==> out@[j]@ == values@[j]@,
        decreases values@.len() - i,
    {
        out.push(values[i].clone());
        i += 1;
    }
    assert(texts(out@) =~= texts(values@));
    out
}

fn contains_text(values: &Vec<String>, needle: &String) -> (r: bool)
    ensures
        r == texts(values@).contains(needle@),
{
    let mut i: usize = 0;
    while i < values.len()
        invariant
            i <= values@.len(),
            forall|j: int| 0 <= j < i ==> texts(values@)[j] != needle@,
        decreases values@.len() - i,
    {
        if values[i] == *needle {
            assert(texts(values@)[i as int] == needle@);
            return true;
        }
        i += 1;
    }
    false
}

/// Builds the matrix from the declared dimensions. Every dimension keeps its
/// key and its values, except that under a single-flavor request a dimension
/// keyed `flavor` is narrowed to that one flavor. The request fails when such
/// a dimension does not declare the flavor.
pub fn from_values(dims: Vec<Dimension>, only_flavor: Option<Flavor>) -> (r: Result<
    Matrix,
    MatrixError,
>)
    ensures
        r is Err <==> exists|d: int| 0 <= d < dims@.len() && (#[trigger] dims@[d]).conflicts_with(only_flavor),
        r is Err ==> r == Err::<Matrix, MatrixError>(MatrixError::FlavorNotInMatrix),
        r is Ok ==> {
            let m = r->Ok_0;
            &&& m.dimensions@.len() == dims@.len()
            &&& forall|d: int|
                0 <= d < dims@.len() ==> {
                    &&& (#[trigger] m.dimensions@[d]).key@ == dims@[d].key@
                    &&& m.dimensions@[d].values_view() == dims@[d].restricted_values(only_flavor)
                }
        },
{
    let flavor_key = String::from_str("flavor");
    let mut out: Vec<Dimension> = Vec::new();
    let mut d: usize = 0;
    while d < dims.len()
        invariant
            d <= dims@.len(),
            out@.len() == d,
            flavor_key@ == "flavor"@,
            forall|j: int| 0 <= j < d ==> !(#[trigger] dims@[j]).conflicts_with(only_flavor),
            forall|j: int|
                0 <= j < d ==> {
                    &&& (#[trigger] out@[j]).key@ == dims@[j].key@
                    &&& out@[j].values_view() == dims@[j].restricted_values(only_flavor)
                },
        decreases dims@.len() - d,
    {
        let dim = &dims[d];
        let narrowed = only_flavor.is_some() && dim.key == flavor_key;
        assert(narrowed == dim.is_restricted_by(only_flavor));
        let values = if narrowed {
            let wanted = String::from_str(only_flavor.unwrap().identifier());
            if !contains_text(&dim.values, &wanted) {
                assert(dims@[d as int].conflicts_with(only_flavor));
                return Err(MatrixError::FlavorNotInMatrix);
            }
            let mut one: Vec<String> = Vec::new();
            one.push(wanted);
            assert(texts(one@) =~= seq![only_flavor->Some_0.identifier_spec()]);
            one
        } else {
            clone_strings(&dim.values)
        };
        out.push(Dimension { key: dim.key.clone(), values });
        d += 1;
    }
    Ok(Matrix { dimensions: out })
}

/// The key and value views of a list of pairs.
pub open spec fn pairs_view(pairs: Seq<(String, String)>) -> Seq<(Seq<char>, Seq<char>)> {
    Seq::new(pairs.len(), |d: int| (pairs[d].0@, pairs[d].1@))
}

/// A product with a zero factor is zero.
pub proof fn lemma_product_zero(lens: Seq<nat>, j: int)
    requires
        0 <= j < lens.len(),
        lens[j] == 0,
    ensures
        product(lens) == 0,
    decreases lens.len(),
{
    if j < lens.len() - 1 {
        lemma_product_zero(lens.drop_last(), j);
        assert(product(lens.drop_last()) * lens.last() == 0) by (nonlinear_arith)
            requires
                product(lens.drop_last()) == 0,
        ;
    } else {
        assert(product(lens.drop_last()) * lens.last() == 0) by (nonlinear_arith)
            requires
                lens.last() == 0,
        ;
    }
}

/// With positive factors only, the product of a prefix is at least 1 and
/// never exceeds the product of the whole.
pub proof fn lemma_product_prefix(lens: Seq<nat>, i: int)
    requires
        0 <= i <= lens.len(),
        forall|j: int| 0 <= j < lens.len() ==> lens[j] > 0,
    ensures
        1 <= product(lens.take(i)) <= product(lens),
    decreases lens.len() - i,
{
    if i == lens.len() {
        assert(lens.take(i) =~= lens);
        lemma_product_positive(lens);
    } else {
        lemma_product_prefix(lens, i + 1);
        assert(lens.take(i + 1).drop_last() =~= lens.take(i));
        lemma_product_positive(lens.take(i));
        assert(product(lens.take(i)) <= product(lens.take(i)) * lens.take(i + 1).last())
            by (nonlinear_arith)
            requires
                lens.take(i + 1).last() >= 1,
        ;
    }
}

/// A product of positive factors is positive.
pub proof fn lemma_product_positive(lens: Seq<nat>)
    requires
        forall|j: int| 0 <= j < lens.len() ==> lens[j] > 0,
    ensures
        product(lens) >= 1,
    decreases lens.len(),
{
    if lens.len() > 0 {
        lemma_product_positive(lens.drop_last());
        assert(product(lens.drop_last()) * lens.last() >= 1) by (nonlinear_arith)
            requires
                product(lens.drop_last()) >= 1,
                lens.last() >= 1,
        ;
    }
}

/// Within its range every combination selects, in every dimension, a
/// position that the dimension has.
pub proof fn lemma_selected_in_range(lens: Seq<nat>, k: int, d: int)
    requires
        0 <= k < combination_count(lens),
        0 <= d < lens.len(),
    ensures
        0 <= selected(lens, k, d) < lens[d],
{
    if lens[d] == 0 {
        lemma_product_zero(lens, d);
    }
    let n = lens[d] as int;
    let q = k / (stride(lens, d) as int);
    assert(0 <= q % n < n) by (nonlinear_arith)
        requires
            n > 0,
    ;
}

/// What a combination selects in a dimension other than the last is what
/// the combination of the remaining dimensions selects there, once the last
/// dimension is divided out.
pub proof fn lemma_selected_without_last(lens: Seq<nat>, k: int, d: int)
    requires
        forall|j: int| 0 <= j < lens.len() ==> lens[j] > 0,
        0 <= d < lens.len() - 1,
        0 <= k,
    ensures
        selected(lens, k, d) == selected(lens.drop_last(), k / (lens.last() as int), d),
{
    let init = lens.drop_last();
    let tail = init.skip(d + 1);
    assert(lens.skip(d + 1).drop_last() =~= tail);
    assert(lens.skip(d + 1).last() == lens.last());
    lemma_product_positive(tail);
    let a = product(tail) as int;
    let b = lens.last() as int;
    assert(stride(lens, d) == a * b);
    vstd::arithmetic::div_mod::lemma_div_denominator(k, b, a);
    assert(b * a == a * b) by (nonlinear_arith);
    assert(lens[d] == init[d]);
}

/// The last declared dimension varies fastest: from one combination to the
/// next it moves on by one value, and starts over after its last.
pub proof fn lemma_last_dimension_cycles(lens: Seq<nat>, k: int)
    requires
        lens.len() > 0,
    ensures
        selected(lens, k, lens.len() - 1) == k % (lens.last() as int),
{
    assert(lens.skip(lens.len() as int) =~= Seq::<nat>::empty());
    assert(stride(lens, lens.len() - 1) == 1);
}

/// Two different combinations of dimensions that all have values differ in
/// what they select in some dimension.
pub proof fn lemma_combinations_differ(lens: Seq<nat>, k1: int, k2: int) -> (d: int)
    requires
        forall|j: int| 0 <= j < lens.len() ==> lens[j] > 0,
        0 <= k1 < k2 < product(lens),
    ensures
        0 <= d < lens.len(),
        selected(lens, k1, d) != selected(lens, k2, d),
    decreases lens.len(),
{
    if lens.len() == 0 {
        0
    } else {
        let n = lens.len() as int;
        let init = lens.drop_last();
        let b = lens.last() as int;
        assert(lens.skip(n) =~= Seq::<nat>::empty());
        assert(stride(lens, n - 1) == 1);
        if k1 % b != k2 % b {
            n - 1
        } else {
            let q1 = k1 / b;
            let q2 = k2 / b;
            vstd::arithmetic::div_mod::lemma_fundamental_div_mod(k1, b);
            vstd::arithmetic::div_mod::lemma_fundamental_div_mod(k2, b);
            let p = product(init) as int;
            assert(0 <= q1 < q2 < p) by (nonlinear_arith)
                requires
                    b > 0,
                    0 <= k1 < k2 < p * b,
                    k1 == b * q1 + (k1 % b),
                    k2 == b * q2 + (k2 % b),
                    k1 % b == k2 % b,
                    0 <= k1 % b < b,
            ;
            let d = lemma_combinations_differ(init, q1, q2);
            lemma_selected_without_last(lens, k1, d);
            lemma_selected_without_last(lens, k2, d);
            d
        }
    }
}

impl Matrix {
    /// Whether no dimension lists a value twice.
    pub open spec fn has_distinct_values(&self) -> bool {
        forall|d: int, i: int, j: int|
            0 <= d < self.dimensions@.len() && 0 <= i < j < self.dimensions@[d].values@.len()
                ==> self.dimensions@[d].values@[i]@ != self.dimensions@[d].values@[j]@
    }

    /// Where no dimension lists a value twice, no two combinations of the
    /// matrix are the same.
    pub proof fn lemma_combinations_distinct(&self, k1: int, k2: int)
        requires
            self.has_distinct_values(),
            0 <= k1 < k2 < self.count(),
        ensures
            self.combination(k1) != self.combination(k2),
    {
        let lens = self.lens();
        assert forall|j: int| 0 <= j < lens.len() implies lens[j] > 0 by {
            if lens[j] == 0 {
                lemma_product_zero(lens, j);
            }
        }
        let d = lemma_combinations_differ(lens, k1, k2);
        lemma_selected_in_range(lens, k1, d);
        lemma_selected_in_range(lens, k2, d);
        let s1 = selected(lens, k1, d);
        let s2 = selected(lens, k2, d);
        assert(self.combination(k1)[d].1 == self.dimensions@[d].values@[s1]@);
        assert(self.combination(k2)[d].1 == self.dimensions@[d].values@[s2]@);
        if s1 < s2 {
            assert(self.dimensions@[d].values@[s1]@ != self.dimensions@[d].values@[s2]@);
        } else {
            assert(self.dimensions@[d].values@[s2]@ != self.dimensions@[d].values@[s1]@);
        }
    }

    /// In a dimension that holds a single value every combination selects
    /// that value: a matrix narrowed to one flavor yields only that flavor.
    pub proof fn lemma_single_value_is_selected(&self, k: int, d: int)
        requires
            0 <= k < self.count(),
            0 <= d < self.dimensions@.len(),
            self.dimensions@[d].values@.len() == 1,
        ensures
            self.combination(k)[d] == (
                self.dimensions@[d].key@,
                self.dimensions@[d].values@[0]@,
            ),
    {
        lemma_selected_in_range(self.lens(), k, d);
    }

    /// The number of values of each dimension, in declared order.
    pub open spec fn lens(&self) -> Seq<nat> {
        Seq::new(self.dimensions@.len(), |d: int| self.dimensions@[d].values@.len())
    }

    /// The number of combinations of the matrix.
    pub open spec fn count(&self) -> nat {
        combination_count(self.lens())
    }

    /// Combination `k` of the matrix: for each dimension in declared order
    /// its key and the value selected for `k`.
    pub open spec fn combination(&self, k: int) -> Seq<(Seq<char>, Seq<char>)> {
        Seq::new(
            self.dimensions@.len(),
            |d: int|
                (
                    self.dimensions@[d].key@,
                    self.dimensions@[d].values@[selected(self.lens(), k, d)]@,
                ),
        )
    }

    /// The number of combinations, or `None` when it does not fit in `usize`.
    pub fn checked_count(&self) -> (r: Option<usize>)
        ensures
            r is Some <==> self.count() <= usize::MAX,
            r is Some ==> r->Some_0 == self.count(),
    {
        let n = self.dimensions.len();
        if n == 0 {
            return Some(0);
        }
        let mut j: usize = 0;
        while j < n
            invariant
                n == self.dimensions@.len(),
                j <= n,
                forall|i: int| 0 <= i < j ==> self.lens()[i] > 0,
            decreases n - j,
        {
            if self.dimensions[j].values.len() == 0 {
                proof {
                    lemma_product_zero(self.lens(), j as int);
                }
                return Some(0);
            }
            j += 1;
        }
        let mut acc: usize = 1;
        let mut i: usize = 0;
        proof {
            assert(self.lens().take(0) =~= Seq::<nat>::empty());
        }
        while i < n
            invariant
                n == self.dimensions@.len(),
                n > 0,
                i <= n,
                forall|i: int| 0 <= i < n ==> self.lens()[i] > 0,
                acc == product(self.lens().take(i as int)),
            decreases n - i,
        {
            let len = self.dimensions[i].values.len();
            proof {
                assert(self.lens().take(i + 1).drop_last() =~= self.lens().take(i as int));
                assert(self.lens().take(i + 1).last() == len);
                lemma_product_prefix(self.lens(), i + 1);
            }
            if acc > usize::MAX / len {
                proof {
                    assert(acc * len > usize::MAX) by (nonlinear_arith)
                        requires
                            len > 0,
                            acc > usize::MAX / len,
                    ;
                }
                return None;
            }
            proof {
                assert(acc * len <= usize::MAX) by (nonlinear_arith)
                    requires
                        len > 0,
                        acc <= usize::MAX / len,
                ;
            }
            acc = acc * len;
            i += 1;
        }
        proof {
            assert(self.lens().take(n as int) =~= self.lens());
        }
        Some(acc)
    }

    /// Every combination of the matrix, in order: combination `k` pairs each
    /// key, in declared order, with the value selected for `k`, so that the
    /// last declared dimension varies fastest.
    pub fn combinations(&self) -> (r: Vec<Vec<(String, String)>>)
        requires
            self.count() <= usize::MAX,
        ensures
            r@.len() == self.count(),
            forall|k: int| 0 <= k < r@.len() ==> pairs_view((#[trigger] r@[k])@) == self.combination(k),
    {
        let mut pools: Vec<Vec<(String, String)>> = Vec::new();
        let mut d: usize = 0;
        while d < self.dimensions.len()
            invariant
                d <= self.dimensions@.len(),
                pools@.len() == d,
                forall|j: int|
                    0 <= j < d ==> (#[trigger] pools@[j])@.len() == self.dimensions@[j].values@.len(),
                forall|j: int, v: int|
                    0 <= j < d && 0 <= v < self.dimensions@[j].values@.len() ==> {
                        &&& (#[trigger] pools@[j]@[v]).0@ == self.dimensions@[j].key@
                        &&& pools@[j]@[v].1@ == self.dimensions@[j].values@[v]@
                    },
            decreases self.dimensions@.len() - d,
        {
            let dim = &self.dimensions[d];
            let mut pool: Vec<(String, String)> = Vec::new();
            let mut v: usize = 0;
            while v < dim.values.len()
                invariant
                    v <= dim.values@.len(),
                    pool@.len() == v,
                    forall|w: int|
                        0 <= w < v ==> {
                            &&& (#[trigger] pool@[w]).0@ == dim.key@
                            &&& pool@[w].1@ == dim.values@[w]@
                        },
                decreases dim.values@.len() - v,
            {
                pool.push((dim.key.clone(), dim.values[v].clone()));
                v += 1;
            }
            pools.push(pool);
            d += 1;
        }
        proof {
            assert(pool_lens(pools@) =~= self.lens());
        }
        let ghost filled = pools@;
        let r = cartesian_product(pools);
        proof {
            assert forall|k: int| 0 <= k < r@.len() implies pairs_view((#[trigger] r@[k])@)
                == self.combination(k) by {
                assert forall|d: int| 0 <= d < self.dimensions@.len() implies pairs_view(r@[k]@)[d]
                    == self.combination(k)[d] by {
                    let s = selected(self.lens(), k, d);
                    assert(r@[k]@[d] == filled[d]@[s]);
                }
                assert(pairs_view(r@[k]@) =~= self.combination(k));
            }
        }
        r
    }

    /// Every combination of the matrix as `combinations` lists them, or
    /// `None` when their number does not fit in `usize`.
    pub fn expand(&self) -> (r: Option<Vec<Vec<(String, String)>>>)
        ensures
            r is Some <==> self.count() <= usize::MAX,
            r is Some ==> {
                &&& r->Some_0@.len() == self.count()
                &&& forall|k: int|
                    0 <= k < r->Some_0@.len() ==> pairs_view((#[trigger] r->Some_0@[k])@)
                        == self.combination(k)
            },
    {
        match self.checked_count() {
            Some(_) => Some(self.combinations()),
            None => None,
        }
    }
}

} // verus!
