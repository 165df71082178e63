use vstd::prelude::*;

use vstd::arithmetic::div_mod::lemma_fundamental_div_mod;
use vstd::arithmetic::div_mod::lemma_fundamental_div_mod_converse;
use vstd::arithmetic::div_mod::lemma_mod_bound;
use vstd::arithmetic::div_mod::lemma_multiply_divide_lt;

use crate::error::TensorComputationError;

verus! {

/// The total element count of a shape: the product of its dimension sizes.
/// An empty shape (rank 0) holds exactly one element.
pub open spec fn size_spec(dims: Seq<usize>) -> nat
    decreases dims.len(),
{
    if dims.len() == 0 {
        1
    } else {
        size_spec(dims.drop_last()) * (dims.last() as nat)
    }
}

/// The row-major flat position of a coordinate tuple: the last axis varies
/// fastest.
pub open spec fn offset_spec(dims: Seq<usize>, index: Seq<usize>) -> nat
    recommends
        index.len() == dims.len(),
    decreases dims.len(),
{
    if dims.len() == 0 {
        0
    } else {
        offset_spec(dims.drop_last(), index.drop_last()) * (dims.last() as nat) + (
        index.last() as nat)
    }
}

/// A coordinate tuple addresses one element: it has one entry per axis and
/// every entry lies below its axis length.
pub open spec fn valid_index(dims: Seq<usize>, index: Seq<usize>) -> bool {
    &&& index.len() == dims.len()
    &&& forall|k: int| 0 <= k < dims.len() ==> (#[trigger] index[k]) < dims[k]
}

/// The coordinate tuple reached after `f` steps when the first axis varies
/// fastest: the column-major counterpart of `offset_spec`.
pub open spec fn comajor_index(dims: Seq<usize>, f: nat) -> Seq<usize>
    recommends
        f < size_spec(dims),
    decreases dims.len(),
{
    if dims.len() == 0 {
        Seq::empty()
    } else {
        seq![(f % (dims[0] as nat)) as usize] + comajor_index(
            dims.drop_first(),
            f / (dims[0] as nat),
        )
    }
}

/// The buffer of the axis-reversed tensor: position `f` of the result reads
/// the input buffer in column-major order.
pub open spec fn transpose_data<T>(dims: Seq<usize>, data: Seq<T>) -> Seq<T> {
    Seq::new(
        size_spec(dims),
        |f: int| data[offset_spec(dims, comajor_index(dims, f as nat)) as int],
    )
}

/// A shape has a positive element count exactly when every axis is
/// positive.
pub proof fn lemma_size_positive(dims: Seq<usize>)
    ensures
        size_spec(dims) > 0 <==> (forall|k: int| 0 <= k < dims.len() ==> (#[trigger] dims[k]) > 0),
    decreases dims.len(),
{
    if dims.len() == 0 {
    } else {
        lemma_size_positive(dims.drop_last());
        let s = size_spec(dims.drop_last());
        let d = dims.last() as nat;
        assert(s * d > 0 <==> (s > 0 && d > 0)) by (nonlinear_arith);
        if size_spec(dims) > 0 {
            assert forall|k: int| 0 <= k < dims.len() implies (#[trigger] dims[k]) > 0 by {
                if k < dims.len() - 1 {
                    assert(dims.drop_last()[k] == dims[k]);
                }
            }
        } else {
            if forall|k: int| 0 <= k < dims.len() ==> (#[trigger] dims[k]) > 0 {
                assert forall|k: int| 0 <= k < dims.drop_last().len() implies (#[trigger] dims.drop_last()[k])
                    > 0 by {
                    assert(dims.drop_last()[k] == dims[k]);
                }
            }
        }
    }
}

/// Extending a shape prefix by one axis multiplies its element count by
/// that axis.
pub proof fn lemma_size_take_succ(dims: Seq<usize>, k: int)
    requires
        0 <= k < dims.len(),
    ensures
        size_spec(dims.take(k + 1)) == size_spec(dims.take(k)) * (dims[k] as nat),
{
    assert(dims.take(k + 1).drop_last() =~= dims.take(k));
    assert(dims.take(k + 1).last() == dims[k]);
}

/// When the remaining axes are all positive, a prefix of a shape counts no
/// more elements than the whole shape.
pub proof fn lemma_size_take_le(dims: Seq<usize>, k: int)
    requires
        0 <= k <= dims.len(),
        forall|j: int| k <= j < dims.len() ==> (#[trigger] dims[j]) >= 1,
    ensures
        size_spec(dims.take(k)) <= size_spec(dims),
    decreases dims.len() - k,
{
    if k == dims.len() {
        assert(dims.take(k) =~= dims);
    } else {
        lemma_size_take_succ(dims, k);
        let s = size_spec(dims.take(k));
        let d = dims[k] as nat;
        assert(s <= s * d) by (nonlinear_arith)
            requires
                d >= 1,
        ;
        lemma_size_take_le(dims, k + 1);
    }
}

/// A shape's element count equals its first axis times the count of the
/// remaining axes.
pub proof fn lemma_size_first(dims: Seq<usize>)
    requires
        dims.len() >= 1,
    ensures
        size_spec(dims) == (dims[0] as nat) * size_spec(dims.drop_first()),
    decreases dims.len(),
{
    if dims.len() == 1 {
        assert(dims.drop_last() =~= Seq::<usize>::empty());
        assert(dims.drop_first() =~= Seq::<usize>::empty());
        assert(size_spec(Seq::<usize>::empty()) == 1);
        assert(dims.last() == dims[0]);
        assert(size_spec(dims) == 1 * (dims[0] as nat));
        assert(1 * (dims[0] as nat) == (dims[0] as nat) * 1) by (nonlinear_arith);
    } else {
        lemma_size_first(dims.drop_last());
        assert(dims.drop_last().drop_first() =~= dims.drop_first().drop_last());
        assert(dims.drop_last()[0] == dims[0]);
        assert(dims.drop_first().last() == dims.last());
        let d0 = dims[0] as nat;
        let mid = size_spec(dims.drop_first().drop_last());
        let dl = dims.last() as nat;
        assert(size_spec(dims) == (d0 * mid) * dl);
        assert(size_spec(dims.drop_first()) == mid * dl);
        assert((d0 * mid) * dl == d0 * (mid * dl)) by (nonlinear_arith);
    }
}

/// Reversing the axes of a shape keeps its element count.
pub proof fn lemma_size_reverse(dims: Seq<usize>)
    ensures
        size_spec(dims.reverse()) == size_spec(dims),
    decreases dims.len(),
{
    if dims.len() == 0 {
        assert(dims.reverse() =~= dims);
    } else {
        lemma_size_reverse(dims.drop_first());
        lemma_size_first(dims);
        assert(dims.reverse().drop_last() =~= dims.drop_first().reverse());
        assert(dims.reverse().last() == dims[0]);
        let r = size_spec(dims.drop_first());
        let d0 = dims[0] as nat;
        assert(r * d0 == d0 * r) by (nonlinear_arith);
    }
}

/// A coordinate tuple valid for a shape is, reversed, valid for the
/// reversed shape.
pub proof fn lemma_valid_reverse(dims: Seq<usize>, index: Seq<usize>)
    requires
        valid_index(dims, index),
    ensures
        valid_index(dims.reverse(), index.reverse()),
{
    assert forall|k: int| 0 <= k < dims.reverse().len() implies (#[trigger] index.reverse()[k])
        < dims.reverse()[k] by {
        assert(index.reverse()[k] == index[index.len() - 1 - k]);
        assert(dims.reverse()[k] == dims[dims.len() - 1 - k]);
    }
}

/// A valid coordinate tuple lands strictly inside the buffer.
pub proof fn lemma_offset_bound(dims: Seq<usize>, index: Seq<usize>)
    requires
        valid_index(dims, index),
    ensures
        offset_spec(dims, index) < size_spec(dims),
    decreases dims.len(),
{
    if dims.len() == 0 {
    } else {
        assert forall|k: int| 0 <= k < dims.drop_last().len() implies (#[trigger] index.drop_last()[k])
            < dims.drop_last()[k] by {
            assert(index.drop_last()[k] == index[k]);
            assert(dims.drop_last()[k] == dims[k]);
        }
        lemma_offset_bound(dims.drop_last(), index.drop_last());
        let o = offset_spec(dims.drop_last(), index.drop_last());
        let s = size_spec(dims.drop_last());
        let d = dims.last() as nat;
        let i = index.last() as nat;
        assert(i < d);
        assert(o * d + i < s * d) by (nonlinear_arith)
            requires
                o < s,
                i < d,
        ;
    }
}

/// Distinct valid coordinate tuples land at distinct flat positions.
pub proof fn lemma_offset_injective(dims: Seq<usize>, a: Seq<usize>, b: Seq<usize>)
    requires
        valid_index(dims, a),
        valid_index(dims, b),
        offset_spec(dims, a) == offset_spec(dims, b),
    ensures
        a == b,
    decreases dims.len(),
{
    if dims.len() == 0 {
        assert(a =~= b);
    } else {
        assert forall|k: int| 0 <= k < dims.drop_last().len() implies (#[trigger] a.drop_last()[k])
            < dims.drop_last()[k] && b.drop_last()[k] < dims.drop_last()[k] by {
            assert(a.drop_last()[k] == a[k]);
            assert(b.drop_last()[k] == b[k]);
            assert(dims.drop_last()[k] == dims[k]);
        }
        let d = dims.last() as int;
        let oa = offset_spec(dims.drop_last(), a.drop_last()) as int;
        let ob = offset_spec(dims.drop_last(), b.drop_last()) as int;
        let ia = a.last() as int;
        let ib = b.last() as int;
        let x = offset_spec(dims, a) as int;
        assert(a.last() < dims.last());
        assert(b.last() < dims.last());
        lemma_fundamental_div_mod_converse(x, d, oa, ia);
        lemma_fundamental_div_mod_converse(x, d, ob, ib);
        lemma_offset_injective(dims.drop_last(), a.drop_last(), b.drop_last());
        assert forall|k: int| 0 <= k < a.len() implies a[k] == b[k] by {
            if k < a.len() - 1 {
                assert(a.drop_last()[k] == b.drop_last()[k]);
                assert(a.drop_last()[k] == a[k]);
                assert(b.drop_last()[k] == b[k]);
            }
        }
        assert(a =~= b);
    }
}

/// Walking a tensor in column-major order visits valid coordinates, and
/// step `f`, reversed, is the row-major position `f` of the reversed shape.
pub proof fn lemma_comajor_index(dims: Seq<usize>, f: nat)
    requires
        f < size_spec(dims),
    ensures
        valid_index(dims, comajor_index(dims, f)),
        offset_spec(dims.reverse(), comajor_index(dims, f).reverse()) == f,
    decreases dims.len(),
{
    lemma_size_positive(dims);
    if dims.len() == 0 {
        assert(comajor_index(dims, f) =~= Seq::<usize>::empty());
        assert(dims.reverse() =~= Seq::<usize>::empty());
        assert(comajor_index(dims, f).reverse() =~= Seq::<usize>::empty());
    } else {
        let d0 = dims[0] as nat;
        let rest = dims.drop_first();
        lemma_size_first(dims);
        assert(d0 > 0);
        let q = f / d0;
        let r = f % d0;
        lemma_mod_bound(f as int, d0 as int);
        lemma_fundamental_div_mod(f as int, d0 as int);
        assert(f < d0 * size_spec(rest));
        lemma_multiply_divide_lt(f as int, d0 as int, size_spec(rest) as int);
        lemma_comajor_index(rest, q);
        let c = comajor_index(dims, f);
        let crest = comajor_index(rest, q);
        assert(c == seq![r as usize] + crest);
        assert(c.len() == dims.len());
        assert forall|k: int| 0 <= k < dims.len() implies (#[trigger] c[k]) < dims[k] by {
            if k == 0 {
                assert(c[0] == r as usize);
            } else {
                assert(c[k] == crest[k - 1]);
                assert(dims[k] == rest[k - 1]);
            }
        }
        assert(dims.reverse().drop_last() =~= rest.reverse());
        assert(dims.reverse().last() == dims[0]);
        assert(c.reverse().drop_last() =~= crest.reverse());
        assert(c.reverse().last() == r as usize);
        assert(offset_spec(dims.reverse(), c.reverse()) == q * d0 + r);
        assert(q * d0 == d0 * q) by (nonlinear_arith);
    }
}

/// Reversing the axes twice restores both the shape and the buffer: the
/// transposition of a transposition is the original tensor.
pub proof fn lemma_transpose_involution<T>(dims: Seq<usize>, data: Seq<T>)
    requires
        data.len() == size_spec(dims),
    ensures
        dims.reverse().reverse() == dims,
        transpose_data(dims.reverse(), transpose_data(dims, data)) == data,
{
    assert(dims.reverse().reverse() =~= dims);
    lemma_size_reverse(dims);
    let rev = dims.reverse();
    let t1 = transpose_data(dims, data);
    let t2 = transpose_data(rev, t1);
    assert(t2.len() == data.len());
    assert forall|i: int| 0 <= i < data.len() implies #[trigger] t2[i] == data[i] by {
        lemma_comajor_index(rev, i as nat);
        let cr = comajor_index(rev, i as nat);
        let g = offset_spec(rev, cr);
        lemma_offset_bound(rev, cr);
        assert(g < size_spec(rev));
        assert(t2[i] == t1[g as int]);
        lemma_comajor_index(dims, g);
        let cg = comajor_index(dims, g);
        assert(t1[g as int] == data[offset_spec(dims, cg) as int]);
        // `cg` reversed and `cr` are both valid for the reversed shape and
        // sit at the same row-major position there, so they are equal.
        lemma_valid_reverse(dims, cg);
        assert(offset_spec(rev, cg.reverse()) == g);
        lemma_offset_injective(rev, cg.reverse(), cr);
        assert(cg.reverse() == cr);
        assert(cg =~= cr.reverse());
        // `cr` reversed is the row-major coordinate of position `i` in the
        // original shape.
        assert(offset_spec(rev.reverse(), cr.reverse()) == i);
        assert(rev.reverse() =~= dims);
        assert(offset_spec(dims, cg) == i);
    }
    assert(t2 =~= data);
}

/// Transposing twice is the identity on tensors: whenever `b` carries the
/// transposition of `a` and `c` carries the transposition of `b` — as the
/// transposition contract states them — `c` has `a`'s shape and `a`'s
/// buffer.
pub proof fn lemma_transpose_involution_tensor<T>(a: Tensor<T>, b: Tensor<T>, c: Tensor<T>)
    requires
        a.data_spec().len() == size_spec(a.dims_spec()),
        b.dims_spec() == a.dims_spec().reverse(),
        b.data_spec() == transpose_data(a.dims_spec(), a.data_spec()),
        c.dims_spec() == b.dims_spec().reverse(),
        c.data_spec() == transpose_data(b.dims_spec(), b.data_spec()),
    ensures
        c.dims_spec() == a.dims_spec(),
        c.data_spec() == a.data_spec(),
{
    lemma_transpose_involution(a.dims_spec(), a.data_spec());
}

/// Every pairwise sum of corresponding elements is defined.
pub open spec fn add_all_defined<T: TensorElement>(a: Seq<T>, b: Seq<T>) -> bool {
    forall|i: int| 0 <= i < a.len() ==> (#[trigger] a[i].add_spec(b[i])) is Some
}

/// The pairwise sums of corresponding elements.
pub open spec fn add_vals<T: TensorElement>(a: Seq<T>, b: Seq<T>) -> Seq<T> {
    Seq::new(a.len(), |i: int| a[i].add_spec(b[i])->Some_0)
}

/// Every pairwise product of corresponding elements is defined.
pub open spec fn mul_all_defined<T: TensorElement>(a: Seq<T>, b: Seq<T>) -> bool {
    forall|i: int| 0 <= i < a.len() ==> (#[trigger] a[i].mul_spec(b[i])) is Some
}

/// The pairwise products of corresponding elements.
pub open spec fn mul_vals<T: TensorElement>(a: Seq<T>, b: Seq<T>) -> Seq<T> {
    Seq::new(a.len(), |i: int| a[i].mul_spec(b[i])->Some_0)
}

/// An element type usable in tensor arithmetic: a copyable value with
/// checked addition and multiplication.  An operator answers `None` where
/// it cannot represent the true result, for example on overflow.
pub trait TensorElement: Sized + Copy {
    /// The sum of two elements, or `None` where the operator fails.
    spec fn add_spec(self, other: Self) -> Option<Self>;

    /// The product of two elements, or `None` where the operator fails.
    spec fn mul_spec(self, other: Self) -> Option<Self>;

    fn add_elem(self, other: Self) -> (r: Option<Self>)
        ensures
            r == self.add_spec(other),
    ;

    fn mul_elem(self, other: Self) -> (r: Option<Self>)
        ensures
            r == self.mul_spec(other),
    ;
}

impl TensorElement for i64 {
    open spec fn add_spec(self, other: Self) -> Option<Self> {
        if self + other > i64::MAX || self + other < i64::MIN {
            None
        } else {
            Some((self + other) as i64)
        }
    }

    open spec fn mul_spec(self, other: Self) -> Option<Self> {
        if self * other > i64::MAX || self * other < i64::MIN {
            None
        } else {
            Some((self * other) as i64)
        }
    }

    fn add_elem(self, other: Self) -> (r: Option<Self>) {
        self.checked_add(other)
    }

    fn mul_elem(self, other: Self) -> (r: Option<Self>) {
        self.checked_mul(other)
    }
}

/// A dense multi-dimensional array: a shape together with a flat buffer
/// holding exactly one value per addressable coordinate, laid out in
/// row-major order.  A tensor is immutable once constructed; every
/// operation yields a new tensor.
pub struct Tensor<T> {
    dims: Vec<usize>,
    data: Vec<T>,
}

impl<T> Tensor<T> {
    /// The buffer length always equals the shape's element count; the
    /// validated constructor establishes this once and every operation
    /// preserves it.
    #[verifier::type_invariant]
    spec fn inv(self) -> bool {
        self.data@.len() == size_spec(self.dims@)
    }

    /// The shape, as the mathematical sequence of its axis lengths.
    pub closed spec fn dims_spec(&self) -> Seq<usize> {
        self.dims@
    }

    /// The flat row-major buffer, as a mathematical sequence.
    pub closed spec fn data_spec(&self) -> Seq<T> {
        self.data@
    }

    /// The coordinate tuple addresses an element of this tensor.
    pub open spec fn valid(&self, index: Seq<usize>) -> bool {
        valid_index(self.dims_spec(), index)
    }

    /// The element at a coordinate tuple.
    pub open spec fn elem(&self, index: Seq<usize>) -> T {
        self.data_spec()[offset_spec(self.dims_spec(), index) as int]
    }
}

impl<T: TensorElement> Tensor<T> {
    /// The addition contract.  On differing shapes the result is a shape
    /// mismatch carrying the two full shapes, the left operand's first.
    /// On pointwise-equal shapes, when every pairwise sum is defined the
    /// result is a tensor of the left operand's shape holding at every
    /// coordinate the sum of the operands' elements there — the left
    /// operand always supplies the left-hand argument — and otherwise it
    /// is an arithmetic error.  No partial tensor is ever observable.
    pub open spec fn add_contract(
        &self,
        other: &Tensor<T>,
        r: Result<Tensor<T>, TensorComputationError>,
    ) -> bool {
        &&& self.dims_spec() != other.dims_spec() ==> (r matches Err(e)
            && e matches TensorComputationError::ShapeMismatch { expected, found }
            && expected@ == self.dims_spec() && found@ == other.dims_spec())
        &&& self.dims_spec() == other.dims_spec() && add_all_defined(
            self.data_spec(),
            other.data_spec(),
        ) ==> (r matches Ok(t) && t.dims_spec() == self.dims_spec() && t.data_spec() == add_vals(
            self.data_spec(),
            other.data_spec(),
        ) && (forall|c: Seq<usize>|
            t.valid(c) ==> #[trigger] t.elem(c) == self.elem(c).add_spec(other.elem(c))->Some_0))
        &&& self.dims_spec() == other.dims_spec() && !add_all_defined(
            self.data_spec(),
            other.data_spec(),
        ) ==> (r matches Err(e) && e is ArithmeticError)
    }

    /// The multiplication contract: addition's, with every pairwise
    /// product in place of every pairwise sum.
    pub open spec fn multiply_contract(
        &self,
        other: &Tensor<T>,
        r: Result<Tensor<T>, TensorComputationError>,
    ) -> bool {
        &&& self.dims_spec() != other.dims_spec() ==> (r matches Err(e)
            && e matches TensorComputationError::ShapeMismatch { expected, found }
            && expected@ == self.dims_spec() && found@ == other.dims_spec())
        &&& self.dims_spec() == other.dims_spec() && mul_all_defined(
            self.data_spec(),
            other.data_spec(),
        ) ==> (r matches Ok(t) && t.dims_spec() == self.dims_spec() && t.data_spec() == mul_vals(
            self.data_spec(),
            other.data_spec(),
        ) && (forall|c: Seq<usize>|
            t.valid(c) ==> #[trigger] t.elem(c) == self.elem(c).mul_spec(other.elem(c))->Some_0))
        &&& self.dims_spec() == other.dims_spec() && !mul_all_defined(
            self.data_spec(),
            other.data_spec(),
        ) ==> (r matches Err(e) && e is ArithmeticError)
    }

    /// Elementwise addition.  Its result satisfies [`Self::add_contract`].
    pub fn add(&self, other: &Tensor<T>) -> (r: Result<Tensor<T>, TensorComputationError>)
        ensures
            self.add_contract(other, r),
    {
        proof {
            use_type_invariant(&*self);
            use_type_invariant(other);
        }
        if !same_dims(self.dims.as_slice(), other.dims.as_slice()) {
            return Err(
                TensorComputationError::ShapeMismatch {
                    expected: copy_dims(self.dims.as_slice()),
                    found: copy_dims(other.dims.as_slice()),
                },
            );
        }
        let n = self.data.len();
        let mut out: Vec<T> = Vec::new();
        let mut i: usize = 0;
        while i < n
            invariant
                i <= n,
                n == self.data_spec().len(),
                n == other.data_spec().len(),
                self.dims_spec() == other.dims_spec(),
                out@ =~= add_vals(self.data_spec(), other.data_spec()).take(i as int),
                forall|j: int|
                    0 <= j < i ==> (#[trigger] self.data_spec()[j].add_spec(
                        other.data_spec()[j],
                    )) is Some,
            decreases n - i,
        {
            match self.data[i].add_elem(other.data[i]) {
                Some(v) => out.push(v),
                None => {
                    return Err(
                        TensorComputationError::ArithmeticError {
                            details: "element addition failed".to_string(),
                        },
                    );
                },
            }
            i += 1;
        }
        let t = Tensor { dims: copy_dims(self.dims.as_slice()), data: out };
        proof {
            assert(add_vals(self.data_spec(), other.data_spec()).take(n as int) =~= add_vals(
                self.data_spec(),
                other.data_spec(),
            ));
            assert forall|c: Seq<usize>| t.valid(c) implies #[trigger] t.elem(c) == self.elem(
                c,
            ).add_spec(other.elem(c))->Some_0 by {
                lemma_offset_bound(t.dims_spec(), c);
            }
        }
        Ok(t)
    }

    /// Elementwise multiplication.  Its result satisfies
    /// [`Self::multiply_contract`].
    pub fn multiply(&self, other: &Tensor<T>) -> (r: Result<Tensor<T>, TensorComputationError>)
        ensures
            self.multiply_contract(other, r),
    {
        proof {
            use_type_invariant(&*self);
            use_type_invariant(other);
        }
        if !same_dims(self.dims.as_slice(), other.dims.as_slice()) {
            return Err(
                TensorComputationError::ShapeMismatch {
                    expected: copy_dims(self.dims.as_slice()),
                    found: copy_dims(other.dims.as_slice()),
                },
            );
        }
        let n = self.data.len();
        let mut out: Vec<T> = Vec::new();
        let mut i: usize = 0;
        while i < n
            invariant
                i <= n,
                n == self.data_spec().len(),
                n == other.data_spec().len(),
                self.dims_spec() == other.dims_spec(),
                out@ =~= mul_vals(self.data_spec(), other.data_spec()).take(i as int),
                forall|j: int|
                    0 <= j < i ==> (#[trigger] self.data_spec()[j].mul_spec(
                        other.data_spec()[j],
                    )) is Some,
            decreases n - i,
        {
            match self.data[i].mul_elem(other.data[i]) {
                Some(v) => out.push(v),
                None => {
                    return Err(
                        TensorComputationError::ArithmeticError {
                            details: "element multiplication failed".to_string(),
                        },
                    );
                },
            }
            i += 1;
        }
        let t = Tensor { dims: copy_dims(self.dims.as_slice()), data: out };
        proof {
            assert(mul_vals(self.data_spec(), other.data_spec()).take(n as int) =~= mul_vals(
                self.data_spec(),
                other.data_spec(),
            ));
            assert forall|c: Seq<usize>| t.valid(c) implies #[trigger] t.elem(c) == self.elem(
                c,
            ).mul_spec(other.elem(c))->Some_0 by {
                lemma_offset_bound(t.dims_spec(), c);
            }
        }
        Ok(t)
    }
}

impl<T: Copy> Tensor<T> {
    /// The transposition contract.  The operation always succeeds, the
    /// result's shape is the reverse of this tensor's, its buffer reads
    /// this tensor's in column-major order, and its element at coordinate
    /// `(i0, …, ik)` is this tensor's element at `(ik, …, i0)`.
    pub open spec fn transpose_contract(&self, r: Result<Tensor<T>, TensorComputationError>) -> bool {
        &&& r is Ok
        &&& r matches Ok(t) ==> t.dims_spec() == self.dims_spec().reverse() && t.data_spec()
            == transpose_data(self.dims_spec(), self.data_spec()) && (forall|c: Seq<usize>|
            t.valid(c) ==> #[trigger] t.elem(c) == self.elem(c.reverse()))
    }

    /// Axis-reversing transposition.  Its result satisfies
    /// [`Self::transpose_contract`]; rank-0 and rank-1 tensors transpose
    /// to themselves.
    pub fn transpose(&self) -> (r: Result<Tensor<T>, TensorComputationError>)
        ensures
            self.transpose_contract(r),
    {
        proof {
            use_type_invariant(&*self);
            vstd::std_specs::vec::axiom_spec_len(&self.data);
        }
        let rank = self.dims.len();
        let mut rdims: Vec<usize> = Vec::new();
        let mut a: usize = 0;
        while a < rank
            invariant
                a <= rank,
                rank == self.dims_spec().len(),
                rdims@ =~= self.dims_spec().reverse().take(a as int),
            decreases rank - a,
        {
            rdims.push(self.dims[rank - 1 - a]);
            a += 1;
        }
        proof {
            assert(rdims@ =~= self.dims_spec().reverse());
        }
        let n = self.data.len();
        let mut out: Vec<T> = Vec::new();
        let mut f: usize = 0;
        while f < n
            invariant
                f <= n,
                rank == self.dims_spec().len(),
                n == self.data_spec().len(),
                n == size_spec(self.dims_spec()),
                n <= usize::MAX,
                out@ =~= transpose_data(self.dims_spec(), self.data_spec()).take(f as int),
            decreases n - f,
        {
            proof {
                lemma_size_positive(self.dims_spec());
            }
            let mut in_idx: Vec<usize> = Vec::new();
            let mut rem: usize = f;
            let mut i: usize = 0;
            proof {
                assert(self.dims_spec().skip(0) =~= self.dims_spec());
                assert(Seq::<usize>::empty() + comajor_index(self.dims_spec(), f as nat)
                    =~= comajor_index(self.dims_spec(), f as nat));
            }
            while i < rank
                invariant
                    i <= rank,
                    rank == self.dims_spec().len(),
                    forall|k: int| 0 <= k < rank ==> (#[trigger] self.dims_spec()[k]) >= 1,
                    in_idx@.len() == i,
                    comajor_index(self.dims_spec(), f as nat) == in_idx@ + comajor_index(
                        self.dims_spec().skip(i as int),
                        rem as nat,
                    ),
                decreases rank - i,
            {
                let d = self.dims[i];
                proof {
                    let rest = self.dims_spec().skip(i as int);
                    assert(rest[0] == self.dims_spec()[i as int]);
                    assert(rest.drop_first() =~= self.dims_spec().skip(i as int + 1));
                }
                let ghost prev = in_idx@;
                in_idx.push(rem % d);
                rem = rem / d;
                i += 1;
                proof {
                    assert(in_idx@ + comajor_index(self.dims_spec().skip(i as int), rem as nat)
                        =~= prev + (seq![in_idx@.last()] + comajor_index(
                        self.dims_spec().skip(i as int),
                        rem as nat,
                    )));
                }
            }
            proof {
                assert(self.dims_spec().skip(rank as int) =~= Seq::<usize>::empty());
                assert(comajor_index(Seq::<usize>::empty(), rem as nat) =~= Seq::<usize>::empty());
                assert(in_idx@ =~= in_idx@ + Seq::<usize>::empty());
                assert(in_idx@ == comajor_index(self.dims_spec(), f as nat));
                lemma_comajor_index(self.dims_spec(), f as nat);
            }
            let off = flat_index(self.dims.as_slice(), in_idx.as_slice()).unwrap();
            out.push(self.data[off]);
            f += 1;
            proof {
                assert(transpose_data(self.dims_spec(), self.data_spec()).take(f as int)
                    =~= transpose_data(self.dims_spec(), self.data_spec()).take(f - 1).push(
                    transpose_data(self.dims_spec(), self.data_spec())[f - 1],
                ));
            }
        }
        proof {
            lemma_size_reverse(self.dims_spec());
            assert(out@ =~= transpose_data(self.dims_spec(), self.data_spec()));
        }
        let t = Tensor { dims: rdims, data: out };
        proof {
            let rev = self.dims_spec().reverse();
            assert forall|c: Seq<usize>| t.valid(c) implies #[trigger] t.elem(c) == self.elem(
                c.reverse(),
            ) by {
                lemma_offset_bound(rev, c);
                let g = offset_spec(rev, c);
                lemma_comajor_index(self.dims_spec(), g);
                let cg = comajor_index(self.dims_spec(), g);
                lemma_valid_reverse(self.dims_spec(), cg);
                lemma_offset_injective(rev, cg.reverse(), c);
                assert(cg.reverse() == c);
                assert(cg =~= c.reverse());
            }
        }
        Ok(t)
    }
}

/// The tensor computation capability: shape-validated elementwise
/// arithmetic and axis-reversing transposition.  Each implementer pins
/// its own semantics through the three contract hooks; [`Tensor`]
/// instantiates them with its exact contracts over any [`TensorElement`].
pub trait TensorComputation {
    type Input;

    type Output;

    /// What `add` may return.
    spec fn add_post(&self, other: &Self, r: Result<Self::Output, TensorComputationError>) -> bool;

    /// What `multiply` may return.
    spec fn multiply_post(
        &self,
        other: &Self,
        r: Result<Self::Output, TensorComputationError>,
    ) -> bool;

    /// What `transpose` may return.
    spec fn transpose_post(&self, r: Result<Self::Output, TensorComputationError>) -> bool;

    fn add(&self, other: &Self) -> (r: Result<Self::Output, TensorComputationError>)
        ensures
            self.add_post(other, r),
    ;

    fn multiply(&self, other: &Self) -> (r: Result<Self::Output, TensorComputationError>)
        ensures
            self.multiply_post(other, r),
    ;

    fn transpose(&self) -> (r: Result<Self::Output, TensorComputationError>)
        ensures
            self.transpose_post(r),
    ;
}

impl<T: TensorElement> TensorComputation for Tensor<T> {
    type Input = Tensor<T>;

    type Output = Tensor<T>;

    open spec fn add_post(
        &self,
        other: &Self,
        r: Result<Tensor<T>, TensorComputationError>,
    ) -> bool {
        self.add_contract(other, r)
    }

    open spec fn multiply_post(
        &self,
        other: &Self,
        r: Result<Tensor<T>, TensorComputationError>,
    ) -> bool {
        self.multiply_contract(other, r)
    }

    open spec fn transpose_post(&self, r: Result<Tensor<T>, TensorComputationError>) -> bool {
        self.transpose_contract(r)
    }

    fn add(&self, other: &Self) -> (r: Result<Tensor<T>, TensorComputationError>) {
        Tensor::add(self, other)
    }

    fn multiply(&self, other: &Self) -> (r: Result<Tensor<T>, TensorComputationError>) {
        Tensor::multiply(self, other)
    }

    fn transpose(&self) -> (r: Result<Tensor<T>, TensorComputationError>) {
        Tensor::transpose(self)
    }
}

/// Compares two dimension vectors for pointwise equality.
fn same_dims(a: &[usize], b: &[usize]) -> (r: bool)
    ensures
        r <==> a@ == b@,
{
    if a.len() != b.len() {
        return false;
    }
    let n = a.len();
    let mut i: usize = 0;
    while i < n
        invariant
            i <= n,
            n == a@.len(),
            n == b@.len(),
            forall|k: int| 0 <= k < i ==> a@[k] == b@[k],
        decreases n - i,
    {
        if a[i] != b[i] {
            return false;
        }
        i += 1;
    }
    proof {
        assert(a@ =~= b@);
    }
    true
}

/// Copies a dimension vector.
fn copy_dims(shape: &[usize]) -> (r: Vec<usize>)
    ensures
        r@ == shape@,
{
    let n = shape.len();
    let mut dims: Vec<usize> = Vec::new();
    let mut i: usize = 0;
    while i < n
        invariant
            i <= n,
            n == shape@.len(),
            dims@ == shape@.take(i as int),
        decreases n - i,
    {
        dims.push(shape[i]);
        i += 1;
        proof {
            assert(shape@.take(i as int) =~= shape@.take(i - 1).push(shape@[i - 1]));
        }
    }
    proof {
        assert(shape@.take(n as int) =~= shape@);
    }
    dims
}

/// Computes the element count of a shape: the product of its axes.
fn element_count(shape: &[usize]) -> (r: usize)
    requires
        size_spec(shape@) <= usize::MAX,
    ensures
        r == size_spec(shape@),
{
    let n = shape.len();
    let mut zero = false;
    let mut i: usize = 0;
    while i < n
        invariant
            i <= n,
            n == shape@.len(),
            zero <==> exists|j: int| 0 <= j < i && #[trigger] shape@[j] == 0,
        decreases n - i,
    {
        if shape[i] == 0 {
            zero = true;
        }
        i += 1;
    }
    proof {
        lemma_size_positive(shape@);
    }
    if zero {
        return 0;
    }
    let mut p: usize = 1;
    let mut k: usize = 0;
    while k < n
        invariant
            k <= n,
            n == shape@.len(),
            size_spec(shape@) <= usize::MAX,
            forall|j: int| 0 <= j < n ==> (#[trigger] shape@[j]) >= 1,
            p == size_spec(shape@.take(k as int)),
        decreases n - k,
    {
        proof {
            lemma_size_take_succ(shape@, k as int);
            lemma_size_take_le(shape@, k as int + 1);
        }
        p = p * shape[k];
        k += 1;
    }
    proof {
        assert(shape@.take(n as int) =~= shape@);
    }
    p
}

impl<T> Tensor<T> {
    /// Builds a tensor from a shape and a flat value sequence laid out in
    /// row-major order.  Construction succeeds exactly when the value
    /// count equals the shape's element count; otherwise it fails with a
    /// shape mismatch whose `expected` and `found` each carry one total
    /// element count.  This is the only place the invariant is checked:
    /// every operation may assume it for any tensor handed to it.
    pub fn new(shape: &[usize], values: Vec<T>) -> (r: Result<Tensor<T>, TensorComputationError>)
        requires
            size_spec(shape@) <= usize::MAX,
        ensures
            r is Ok <==> values@.len() == size_spec(shape@),
            r matches Ok(t) ==> t.dims_spec() == shape@ && t.data_spec() == values@,
            r matches Err(e) ==> (e matches TensorComputationError::ShapeMismatch {
                expected,
                found,
            } && expected@ == seq![size_spec(shape@) as usize]
                && found@ == seq![values@.len() as usize]),
    {
        let expected_size = element_count(shape);
        if values.len() != expected_size {
            return Err(
                TensorComputationError::ShapeMismatch {
                    expected: vec![expected_size],
                    found: vec![values.len()],
                },
            );
        }
        Ok(Tensor { dims: copy_dims(shape), data: values })
    }

    /// The shape: one length per axis.
    pub fn shape(&self) -> (r: &[usize])
        ensures
            r@ == self.dims_spec(),
    {
        self.dims.as_slice()
    }

    /// Reads the element at a coordinate tuple, or `None` when the tuple
    /// has the wrong rank or leaves the bounds of an axis.  An
    /// out-of-range read is absent, never a panic.
    pub fn get(&self, index: &[usize]) -> (r: Option<&T>)
        ensures
            r is Some <==> self.valid(index@),
            r matches Some(v) ==> *v == self.elem(index@),
    {
        proof {
            use_type_invariant(&*self);
            vstd::std_specs::vec::axiom_spec_len(&self.data);
        }
        match flat_index(self.dims.as_slice(), index) {
            Some(off) => Some(&self.data[off]),
            None => None,
        }
    }
}

/// Computes the row-major flat position of a coordinate tuple, or `None`
/// when the tuple has the wrong rank or leaves the bounds of an axis.
fn flat_index(dims: &[usize], index: &[usize]) -> (r: Option<usize>)
    requires
        size_spec(dims@) <= usize::MAX,
    ensures
        r is Some <==> valid_index(dims@, index@),
        r matches Some(off) ==> off == offset_spec(dims@, index@) && off < size_spec(dims@),
{
    let n = dims.len();
    if index.len() != n {
        return None;
    }
    let mut i: usize = 0;
    while i < n
        invariant
            i <= n,
            n == dims@.len(),
            n == index@.len(),
            forall|k: int| 0 <= k < i ==> (#[trigger] index@[k]) < dims@[k],
        decreases n - i,
    {
        if index[i] >= dims[i] {
            proof {
                assert(index@[i as int] >= dims@[i as int]);
            }
            return None;
        }
        i += 1;
    }
    assert(valid_index(dims@, index@));
    proof {
        assert forall|j: int| 0 <= j < n implies (#[trigger] dims@[j]) >= 1 by {
            assert(index@[j] < dims@[j]);
        }
    }
    let mut off: usize = 0;
    let mut k: usize = 0;
    while k < n
        invariant
            k <= n,
            n == dims@.len(),
            n == index@.len(),
            valid_index(dims@, index@),
            size_spec(dims@) <= usize::MAX,
            forall|j: int| 0 <= j < n ==> (#[trigger] dims@[j]) >= 1,
            off == offset_spec(dims@.take(k as int), index@.take(k as int)),
        decreases n - k,
    {
        proof {
            assert forall|j: int| 0 <= j < dims@.take(k + 1).len() implies (#[trigger] index@.take(
                k + 1,
            )[j]) < dims@.take(k + 1)[j] by {
                assert(index@.take(k + 1)[j] == index@[j]);
                assert(dims@.take(k + 1)[j] == dims@[j]);
            }
            lemma_offset_bound(dims@.take(k as int + 1), index@.take(k as int + 1));
            lemma_size_take_le(dims@, k as int + 1);
            assert(dims@.take(k as int + 1).drop_last() =~= dims@.take(k as int));
            assert(index@.take(k as int + 1).drop_last() =~= index@.take(k as int));
            assert(dims@.take(k as int + 1).last() == dims@[k as int]);
            assert(index@.take(k as int + 1).last() == index@[k as int]);
        }
        off = off * dims[k] + index[k];
        k += 1;
    }
    proof {
        assert(dims@.take(n as int) =~= dims@);
        assert(index@.take(n as int) =~= index@);
        lemma_offset_bound(dims@, index@);
    }
    Some(off)
}

} // verus!
