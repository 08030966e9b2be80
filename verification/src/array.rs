//! N-dimensional arrays and their elementwise combination.
//!
//! An `NdArray` is a shape (one extent per dimension) together with a flat
//! row-major buffer holding one 64-bit word per element; in the intended use
//! each word is the bit pattern of an IEEE-754 double, which the verifier
//! treats as opaque. The structural invariant is that the buffer length
//! equals the product of the shape. `multiply` validates that two operands
//! have identical shapes and combines them elementwise with an operation
//! supplied by the caller; floating-point arithmetic itself cannot be
//! verified, so the embedding code provides it as that operation.

use vstd::prelude::*;

verus! {

/// Error raised when two arrays cannot be combined elementwise.
#[derive(Clone, Copy, Debug, PartialEq, Eq, Structural)]
pub enum ArrayError {
    /// The two operand shapes are not identical.
    ShapeMismatch,
}

/// The number of elements an array of the given shape holds:
/// the product of all extents (one, for the zero-dimensional shape).
pub open spec fn element_count(shape: Seq<usize>) -> nat
    decreases shape.len(),
{
    if shape.len() == 0 {
        1
    } else {
        (shape[0] as nat) * element_count(shape.drop_first())
    }
}

/// An extent of zero anywhere in the shape makes the element count zero.
proof fn lemma_element_count_zero(shape: Seq<usize>, i: int)
    requires
        0 <= i < shape.len(),
        shape[i] == 0,
    ensures
        element_count(shape) == 0,
    decreases shape.len(),
{
    if i == 0 {
        assert(element_count(shape) == 0) by {
            assert((shape[0] as nat) * element_count(shape.drop_first()) == 0);
        }
    } else {
        lemma_element_count_zero(shape.drop_first(), i - 1);
    }
}

/// With every extent positive, dropping leading dimensions cannot increase
/// the element count.
proof fn lemma_element_count_skip(shape: Seq<usize>, k: int)
    requires
        0 <= k <= shape.len(),
        forall|i: int| 0 <= i < shape.len() ==> shape[i] >= 1,
    ensures
        element_count(shape) >= element_count(shape.skip(k)),
    decreases k,
{
    if k == 0 {
        assert(shape.skip(0) =~= shape);
    } else {
        lemma_element_count_skip(shape, k - 1);
        let s = shape.skip(k - 1);
        assert(s.drop_first() =~= shape.skip(k));
        assert(element_count(s) == (s[0] as nat) * element_count(s.drop_first()));
        assert(element_count(s) >= element_count(shape.skip(k))) by (nonlinear_arith)
            requires
                element_count(s) == (s[0] as nat) * element_count(s.drop_first()),
                s.drop_first() == shape.skip(k),
                s[0] >= 1,
        {
        }
    }
}

/// An n-dimensional array: a shape and a flat row-major buffer with one
/// 64-bit word per element. The buffer length always equals the product of
/// the shape's extents.
pub struct NdArray {
    /// One extent per dimension, outermost first.
    pub shape: Vec<usize>,
    /// The elements in row-major order, each an opaque 64-bit word.
    pub data: Vec<u64>,
}

impl NdArray {
    /// The structural invariant: the buffer holds exactly one word per element.
    pub open spec fn wf(self) -> bool {
        self.data@.len() == element_count(self.shape@)
    }
}

/// The number of elements for `shape`, when it fits in `usize`.
pub fn checked_count(shape: &Vec<usize>) -> (r: Option<usize>)
    ensures
        match r {
            Some(c) => c == element_count(shape@),
            None => element_count(shape@) > usize::MAX,
        },
{
    let n = shape.len();
    let mut i: usize = 0;
    while i < n
        invariant
            0 <= i <= n,
            n == shape@.len(),
            forall|j: int| 0 <= j < i ==> shape@[j] >= 1,
        decreases n - i,
    {
        if shape[i] == 0 {
            proof {
                lemma_element_count_zero(shape@, i as int);
            }
            return Some(0);
        }
        i += 1;
    }
    let mut acc: usize = 1;
    let mut k: usize = n;
    while k > 0
        invariant
            0 <= k <= n,
            n == shape@.len(),
            forall|j: int| 0 <= j < n ==> shape@[j] >= 1,
            acc == element_count(shape@.skip(k as int)),
        decreases k,
    {
        k -= 1;
        let ghost s = shape@.skip(k as int);
        proof {
            assert(s.len() == n - k);
            assert(s[0] == shape@[k as int]);
            assert(s.drop_first() =~= shape@.skip(k as int + 1));
            assert(element_count(s) == (shape@[k as int] as nat) * element_count(
                shape@.skip(k as int + 1),
            ));
        }
        match acc.checked_mul(shape[k]) {
            Some(p) => {
                proof {
                    assert((shape@[k as int] as nat) * (acc as nat) == (acc as nat) * (
                    shape@[k as int] as nat)) by (nonlinear_arith);
                }
                acc = p;
            },
            None => {
                proof {
                    assert((shape@[k as int] as nat) * (acc as nat) == (acc as nat) * (
                    shape@[k as int] as nat)) by (nonlinear_arith);
                    assert(element_count(s) > usize::MAX);
                    lemma_element_count_skip(shape@, k as int);
                }
                return None;
            },
        }
    }
    proof {
        assert(shape@.skip(0) =~= shape@);
    }
    Some(acc)
}

/// Builds an array from a shape and a flat buffer; succeeds exactly when the
/// buffer length equals the shape's element count.
pub fn from_parts(shape: Vec<usize>, data: Vec<u64>) -> (r: Option<NdArray>)
    ensures
        match r {
            Some(z) => z.wf() && z.shape@ == shape@ && z.data@ == data@,
            None => data@.len() != element_count(shape@),
        },
{
    let len = data.len();
    match checked_count(&shape) {
        Some(c) => {
            if c == len {
                Some(NdArray { shape, data })
            } else {
                None
            }
        },
        None => {
            proof {
                assert(data@.len() <= usize::MAX);
            }
            None
        },
    }
}

/// Whether two shapes are identical dimension for dimension.
fn shapes_equal(a: &Vec<usize>, b: &Vec<usize>) -> (r: bool)
    ensures
        r <==> a@ == b@,
{
    if a.len() != b.len() {
        return false;
    }
    let n = a.len();
    let mut i: usize = 0;
    while i < n
        invariant
            0 <= i <= n,
            n == a@.len(),
            n == b@.len(),
            forall|j: int| 0 <= j < i ==> a@[j] == b@[j],
        decreases n - i,
    {
        if a[i] != b[i] {
            return false;
        }
        i += 1;
    }
    proof {
        assert(a@ =~= b@);
    }
    true
}

/// A copy of a shape vector.
fn copy_shape(a: &Vec<usize>) -> (r: Vec<usize>)
    ensures
        r@ == a@,
{
    let n = a.len();
    let mut r: Vec<usize> = Vec::new();
    let mut i: usize = 0;
    while i < n
        invariant
            0 <= i <= n,
            n == a@.len(),
            r@ =~= a@.take(i as int),
        decreases n - i,
    {
        r.push(a[i]);
        i += 1;
    }
    proof {
        assert(r@ =~= a@);
    }
    r
}

/// Combines two arrays elementwise with the operation `op`, after validating
/// that their shapes are identical.
///
/// On identical shapes the result is a fresh array of the same shape whose
/// element at each flat index is the result of one call of `op` on the
/// operands' elements at that index; the operands are left untouched. On
/// differing shapes it fails with `ShapeMismatch` and builds no array.
pub fn multiply<F: Fn(u64, u64) -> u64>(x: &NdArray, y: &NdArray, op: F) -> (r: Result<
    NdArray,
    ArrayError,
>)
    requires
        x.wf(),
        y.wf(),
        x.shape@ == y.shape@ ==> forall|i: int|
            0 <= i < x.data@.len() ==> #[trigger] call_requires(op, (x.data@[i], y.data@[i])),
    ensures
        match r {
            Ok(z) => x.shape@ == y.shape@ && z.wf() && z.shape@ == x.shape@ && z.data@.len()
                == x.data@.len() && forall|i: int|
                0 <= i < z.data@.len() ==> call_ensures(
                    op,
                    (x.data@[i], y.data@[i]),
                    #[trigger] z.data@[i],
                ),
            Err(e) => e == ArrayError::ShapeMismatch && x.shape@ != y.shape@,
        },
{
    if !shapes_equal(&x.shape, &y.shape) {
        return Err(ArrayError::ShapeMismatch);
    }
    proof {
        assert(y.data@.len() == x.data@.len());
    }
    let n = x.data.len();
    let mut data: Vec<u64> = Vec::new();
    let mut j: usize = 0;
    while j < n
        invariant
            0 <= j <= n,
            n == x.data@.len(),
            n == y.data@.len(),
            x.shape@ == y.shape@,
            forall|i: int|
                0 <= i < n ==> #[trigger] call_requires(op, (x.data@[i], y.data@[i])),
            data@.len() == j,
            forall|i: int|
                0 <= i < j ==> call_ensures(op, (x.data@[i], y.data@[i]), #[trigger] data@[i]),
        decreases n - j,
    {
        data.push(op(x.data[j], y.data[j]));
        j += 1;
    }
    Ok(NdArray { shape: copy_shape(&x.shape), data })
}

/// Elementwise combination commutes whenever the element operation does:
/// if every outcome the operation admits is the same for `(a, b)` as for
/// `(b, a)`, then arrays built as `multiply` builds them from `(x, y)` and
/// from `(y, x)` hold the same elements. For arrays of IEEE-754 doubles
/// under multiplication this covers every element that is not a NaN, whose
/// product's bit pattern the standard leaves open.
pub proof fn lemma_multiply_commutes<F: Fn(u64, u64) -> u64>(
    op: F,
    x: NdArray,
    y: NdArray,
    z1: NdArray,
    z2: NdArray,
)
    requires
        forall|a: u64, b: u64, r1: u64, r2: u64|
            call_ensures(op, (a, b), r1) && call_ensures(op, (b, a), r2) ==> r1 == r2,
        x.data@.len() == y.data@.len(),
        z1.data@.len() == x.data@.len(),
        z2.data@.len() == x.data@.len(),
        forall|i: int|
            0 <= i < z1.data@.len() ==> call_ensures(op, (x.data@[i], y.data@[i]), #[trigger] z1.data@[i]),
        forall|i: int|
            0 <= i < z2.data@.len() ==> call_ensures(op, (y.data@[i], x.data@[i]), #[trigger] z2.data@[i]),
    ensures
        z1.data@ == z2.data@,
{
    assert forall|i: int| 0 <= i < z1.data@.len() implies z1.data@[i] == z2.data@[i] by {
        assert(call_ensures(op, (x.data@[i], y.data@[i]), z1.data@[i]));
        assert(call_ensures(op, (y.data@[i], x.data@[i]), z2.data@[i]));
    }
    assert(z1.data@ =~= z2.data@);
}

} // verus!
