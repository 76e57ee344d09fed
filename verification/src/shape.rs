//! Shapes: the dimension sizes of an array, and the number of elements that
//! a shape holds.

use vstd::prelude::*;

verus! {

/// The number of elements of an array of the given shape: the product of its
/// dimension sizes, which is one for the empty shape of a scalar.
pub open spec fn element_count(shape: Seq<usize>) -> nat
    decreases shape.len(),
{
    if shape.len() == 0 {
        1
    } else {
        element_count(shape.drop_last()) * (shape.last() as nat)
    }
}

/// Whether no dimension of the shape has size zero.
pub open spec fn all_positive(shape: Seq<usize>) -> bool {
    forall|i: int| 0 <= i < shape.len() ==> #[trigger] shape[i] > 0
}

/// A shape of one dimension holds as many elements as that dimension is
/// long.
pub proof fn lemma_count_one(shape: Seq<usize>)
    requires
        shape.len() == 1,
    ensures
        element_count(shape) == shape[0],
{
    assert(shape.drop_last() =~= Seq::<usize>::empty());
    assert(element_count(shape.drop_last()) == 1);
    assert(1 * (shape.last() as nat) == shape.last()) by (nonlinear_arith);
}

/// A shape of two dimensions holds rows times columns elements.
pub proof fn lemma_count_two(shape: Seq<usize>)
    requires
        shape.len() == 2,
    ensures
        element_count(shape) == (shape[0] as nat) * (shape[1] as nat),
{
    lemma_count_one(shape.drop_last());
}

/// A shape with a dimension of size zero holds no element.
pub proof fn lemma_count_zero(shape: Seq<usize>, i: int)
    requires
        0 <= i < shape.len(),
        shape[i] == 0,
    ensures
        element_count(shape) == 0,
    decreases shape.len(),
{
    if i < shape.len() - 1 {
        lemma_count_zero(shape.drop_last(), i);
        assert(0 * (shape.last() as nat) == 0) by (nonlinear_arith);
    } else {
        assert(element_count(shape.drop_last()) * 0 == 0) by (nonlinear_arith);
    }
}

/// One more dimension multiplies the count by its size.
pub proof fn lemma_count_step(shape: Seq<usize>, k: int)
    requires
        0 <= k < shape.len(),
    ensures
        element_count(shape.take(k + 1)) == element_count(shape.take(k)) * (shape[k] as nat),
{
    assert(shape.take(k + 1).drop_last() =~= shape.take(k));
}

/// Where no dimension is zero, the count of a prefix of the shape is at
/// least one and at most the count of the whole shape.
pub proof fn lemma_count_prefix(shape: Seq<usize>, k: int)
    requires
        all_positive(shape),
        0 <= k <= shape.len(),
    ensures
        1 <= element_count(shape.take(k)) <= element_count(shape),
    decreases shape.len() - k,
{
    if k == shape.len() {
        assert(shape.take(k) =~= shape);
        lemma_count_positive(shape);
    } else {
        lemma_count_prefix(shape, k + 1);
        lemma_count_step(shape, k);
        let front = element_count(shape.take(k));
        let size = shape[k] as nat;
        assert(front * size >= 1 && size >= 1 ==> 1 <= front <= front * size)
            by (nonlinear_arith);
    }
}

/// Where no dimension is zero, the shape holds at least one element.
pub proof fn lemma_count_positive(shape: Seq<usize>)
    requires
        all_positive(shape),
    ensures
        element_count(shape) >= 1,
    decreases shape.len(),
{
    if shape.len() > 0 {
        lemma_count_positive(shape.drop_last());
        let front = element_count(shape.drop_last());
        let size = shape.last() as nat;
        assert(front >= 1 && size >= 1 ==> front * size >= 1) by (nonlinear_arith);
    }
}

/// The number of elements of an array of the given shape, or `None` where
/// that number does not fit in a `usize`.
pub fn checked_count(shape: &[usize]) -> (count: Option<usize>)
    ensures
        match count {
            Some(n) => n == element_count(shape@),
            None => element_count(shape@) > usize::MAX,
        },
{
    let mut i: usize = 0;
    while i < shape.len()
        invariant
            i <= shape.len(),
            forall|j: int| 0 <= j < i ==> #[trigger] shape@[j] > 0,
        decreases shape.len() - i,
    {
        if shape[i] == 0 {
            proof {
                lemma_count_zero(shape@, i as int);
            }
            return Some(0);
        }
        i = i + 1;
    }
    let mut product: usize = 1;
    let mut k: usize = 0;
    while k < shape.len()
        invariant
            k <= shape.len(),
            all_positive(shape@),
            product == element_count(shape@.take(k as int)),
        decreases shape.len() - k,
    {
        proof {
            lemma_count_step(shape@, k as int);
            lemma_count_prefix(shape@, k + 1);
        }
        match product.checked_mul(shape[k]) {
            Some(next) => {
                product = next;
            },
            None => {
                return None;
            },
        }
        k = k + 1;
    }
    proof {
        assert(shape@.take(k as int) =~= shape@);
    }
    Some(product)
}

} // verus!
