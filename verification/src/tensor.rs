//! Logical tensor views: a shape, strides (in elements), an element offset,
//! and a handle to the physical storage. Re-views (reshape, slice, transpose,
//! axis split) never move data; they only change how the same storage is
//! addressed.

use vstd::prelude::*;
use crate::config::DataType;

verus! {

/// Product of the extents `s[i..]`.
pub open spec fn suffix_product(s: Seq<usize>, i: int) -> nat
    decreases s.len() - i,
{
    if i < 0 || i >= s.len() {
        1
    } else {
        s[i] as nat * suffix_product(s, i + 1)
    }
}

/// Every extent is at least one.
pub open spec fn shape_positive(s: Seq<usize>) -> bool {
    forall|i: int| 0 <= i < s.len() ==> s[i] >= 1
}

/// With positive extents, the product over a suffix never shrinks as the
/// suffix grows.
pub proof fn lemma_suffix_product_le(s: Seq<usize>, i: int, j: int)
    requires
        shape_positive(s),
        0 <= i <= j,
    ensures
        suffix_product(s, j) <= suffix_product(s, i),
    decreases j - i,
{
    if i < j {
        lemma_suffix_product_le(s, i + 1, j);
        if i < s.len() {
            assert(suffix_product(s, i) == s[i] as nat * suffix_product(s, i + 1));
            assert(s[i] as nat * suffix_product(s, i + 1) >= 1 * suffix_product(s, i + 1))
                by (nonlinear_arith)
                requires s[i] >= 1;
        }
    }
}

/// The product of a one-extent shape.
pub proof fn lemma_product_one(s: Seq<usize>)
    requires
        s.len() == 1,
    ensures
        suffix_product(s, 0) == s[0],
{
    assert(suffix_product(s, 1) == 1);
    assert(suffix_product(s, 0) == s[0] as nat * suffix_product(s, 1));
}

/// The product of a two-extent shape.
pub proof fn lemma_product_pair(s: Seq<usize>)
    requires
        s.len() == 2,
    ensures
        suffix_product(s, 0) == s[0] as nat * s[1] as nat,
{
    assert(suffix_product(s, 2) == 1);
    assert(suffix_product(s, 1) == s[1] as nat * suffix_product(s, 2));
    assert(suffix_product(s, 0) == s[0] as nat * suffix_product(s, 1));
    assert(s[0] as nat * (s[1] as nat * 1) == s[0] as nat * s[1] as nat)
        by (nonlinear_arith);
}

/// The product of a three-extent shape.
pub proof fn lemma_product_triple(s: Seq<usize>)
    requires
        s.len() == 3,
    ensures
        suffix_product(s, 0) == s[0] as nat * (s[1] as nat * s[2] as nat),
{
    assert(suffix_product(s, 3) == 1);
    assert(suffix_product(s, 2) == s[2] as nat * suffix_product(s, 3));
    assert(suffix_product(s, 1) == s[1] as nat * suffix_product(s, 2));
    assert(suffix_product(s, 0) == s[0] as nat * suffix_product(s, 1));
    assert(s[2] as nat * 1 == s[2] as nat);
    assert(s[1] as nat * (s[2] as nat * 1) == s[1] as nat * s[2] as nat)
        by (nonlinear_arith);
}

/// Linear address term `idx[i..] · strides[i..]`.
pub open spec fn dot_from(idx: Seq<int>, strides: Seq<usize>, i: int) -> int
    decreases idx.len() - i,
{
    if i < 0 || i >= idx.len() || i >= strides.len() {
        0
    } else {
        idx[i] * strides[i] + dot_from(idx, strides, i + 1)
    }
}

/// A logical n-dimensional view over a physical buffer.
#[derive(Debug)]
pub struct Tensor<P> {
    pub dt: DataType,
    pub shape: Vec<usize>,
    pub strides: Vec<usize>,
    pub offset: usize,
    pub physical: P,
}

impl<P> Tensor<P> {
    /// Number of axes.
    pub open spec fn rank(self) -> nat {
        self.shape@.len()
    }

    /// A view is well formed when it has one stride per axis and no axis is
    /// empty.
    pub open spec fn wf(self) -> bool {
        &&& self.strides@.len() == self.shape@.len()
        &&& shape_positive(self.shape@)
    }

    /// Number of elements addressed by the view.
    pub open spec fn elem_count(self) -> nat {
        suffix_product(self.shape@, 0)
    }

    /// The element offset a (multi-)index addresses inside the physical
    /// buffer.
    pub open spec fn addr(self, idx: Seq<int>) -> int {
        self.offset + dot_from(idx, self.strides@, 0)
    }

    /// The view is contiguous and row-major: each stride is the product of
    /// the extents inside it.
    pub open spec fn is_contiguous(self) -> bool {
        forall|i: int| 0 <= i < self.shape@.len()
            ==> self.strides@[i] == suffix_product(self.shape@, i + 1)
    }

    /// The view is contiguous in its last two axes.
    pub open spec fn last_two_contiguous(self) -> bool {
        let r = self.shape@.len() as int;
        &&& r >= 2
        &&& self.strides@[r - 1] == 1
        &&& self.strides@[r - 2] == self.shape@[r - 1]
    }

    /// Two views are the same view: same storage addressed the same way.
    pub open spec fn same_view(self, other: Tensor<P>) -> bool {
        &&& self.dt == other.dt
        &&& self.shape@ == other.shape@
        &&& self.strides@ == other.strides@
        &&& self.offset == other.offset
        &&& self.physical == other.physical
    }

    /// A fresh contiguous row-major view over `physical`, starting at its
    /// first element.
    pub fn new(dt: DataType, shape: Vec<usize>, physical: P) -> (r: Tensor<P>)
        requires
            shape@.len() >= 1,
            shape_positive(shape@),
            suffix_product(shape@, 0) <= usize::MAX,
        ensures
            r.wf(),
            r.is_contiguous(),
            r.dt == dt,
            r.shape@ == shape@,
            r.offset == 0,
            r.physical == physical,
    {
        let n = shape.len();
        let mut strides: Vec<usize> = Vec::new();
        let mut k: usize = 0;
        while k < n
            invariant
                strides@.len() == k,
                k <= n,
                forall|j: int| 0 <= j < k ==> strides@[j] == 1,
            decreases n - k,
        {
            strides.push(1);
            k += 1;
        }
        let mut i: usize = n - 1;
        while i > 0
            invariant
                0 <= i < n,
                n == shape@.len(),
                strides@.len() == n,
                shape_positive(shape@),
                suffix_product(shape@, 0) <= usize::MAX,
                strides@[i as int] == suffix_product(shape@, i + 1),
                forall|j: int| i <= j < n ==> strides@[j] == suffix_product(shape@, j + 1),
            decreases i,
        {
            proof {
                assert(suffix_product(shape@, i as int)
                    == shape@[i as int] as nat * suffix_product(shape@, i + 1));
                lemma_suffix_product_le(shape@, 0, i as int);
                assert(shape@[i as int] as nat * suffix_product(shape@, i + 1)
                    <= usize::MAX);
            }
            let s = shape[i] * strides[i];
            strides.set(i - 1, s);
            i -= 1;
        }
        proof {
            if n == 1 {
                assert(strides@[0] == 1);
                assert(suffix_product(shape@, 1) == 1);
            }
        }
        Tensor { dt, shape, strides, offset: 0, physical }
    }
}

impl<P: Copy> Tensor<P> {
    /// A second handle to the same view.
    pub fn dup(&self) -> (r: Tensor<P>)
        ensures
            r.same_view(*self),
            r.dt == self.dt,
            r.shape@ == self.shape@,
            r.strides@ == self.strides@,
            r.offset == self.offset,
            r.physical == self.physical,
    {
        Tensor {
            dt: self.dt,
            shape: self.shape.clone(),
            strides: self.strides.clone(),
            offset: self.offset,
            physical: self.physical,
        }
    }

    /// Re-view a contiguous tensor under a new shape with the same element
    /// count. The storage and offset are untouched.
    pub fn reshape(self, new_shape: Vec<usize>) -> (r: Tensor<P>)
        requires
            self.wf(),
            self.is_contiguous(),
            self.elem_count() <= usize::MAX,
            new_shape@.len() >= 1,
            shape_positive(new_shape@),
            suffix_product(new_shape@, 0) == self.elem_count(),
        ensures
            r.wf(),
            r.is_contiguous(),
            r.dt == self.dt,
            r.shape@ == new_shape@,
            r.offset == self.offset,
            r.physical == self.physical,
            r.elem_count() == self.elem_count(),
    {
        proof {
            lemma_suffix_product_le(self.shape@, 0, 0);
        }
        let fresh = Tensor::new(self.dt, new_shape, self.physical);
        Tensor { offset: self.offset, ..fresh }
    }

    /// Restrict one axis to `[start, start + len)`. Elements keep their
    /// addresses: index `i` along `axis` in the result addresses what index
    /// `start + i` addressed in the source.
    pub fn slice_axis(&self, axis: usize, start: usize, len: usize) -> (r: Tensor<P>)
        requires
            self.wf(),
            axis < self.rank(),
            len >= 1,
            start + len <= self.shape@[axis as int],
            self.offset + start * self.strides@[axis as int] <= usize::MAX,
        ensures
            r.wf(),
            r.dt == self.dt,
            r.shape@ == self.shape@.update(axis as int, len),
            r.strides@ == self.strides@,
            r.offset == self.offset + start * self.strides@[axis as int],
            r.physical == self.physical,
    {
        let mut shape = self.shape.clone();
        shape.set(axis, len);
        let strides = self.strides.clone();
        let offset = self.offset + start * self.strides[axis];
        Tensor { dt: self.dt, shape, strides, offset, physical: self.physical }
    }

    /// Transpose two axes: exchange their extents and strides. No element
    /// changes its address.
    pub fn transpose_axes(&self, a: usize, b: usize) -> (r: Tensor<P>)
        requires
            self.wf(),
            a < self.rank(),
            b < self.rank(),
        ensures
            r.wf(),
            r.dt == self.dt,
            r.rank() == self.rank(),
            r.offset == self.offset,
            r.physical == self.physical,
            r.shape@ == self.shape@.update(a as int, self.shape@[b as int]).update(
                b as int,
                self.shape@[a as int],
            ),
            r.strides@ == self.strides@.update(a as int, self.strides@[b as int]).update(
                b as int,
                self.strides@[a as int],
            ),
    {
        let mut shape = self.shape.clone();
        let mut strides = self.strides.clone();
        let sa = shape[a];
        let sb = shape[b];
        shape.set(a, sb);
        shape.set(b, sa);
        let ta = strides[a];
        let tb = strides[b];
        strides.set(a, tb);
        strides.set(b, ta);
        Tensor { dt: self.dt, shape, strides, offset: self.offset, physical: self.physical }
    }

    /// Split the last axis `[.., a · b]` into two axes `[.., a, b]`. Requires
    /// the last axis to be dense (stride one), as after a projection split.
    pub fn split_last_axis(&self, a: usize, b: usize) -> (r: Tensor<P>)
        requires
            self.wf(),
            self.rank() >= 1,
            a >= 1,
            b >= 1,
            self.strides@[self.rank() as int - 1] == 1,
            self.shape@[self.rank() as int - 1] == a * b,
        ensures
            r.wf(),
            r.dt == self.dt,
            r.rank() == self.rank() + 1,
            r.offset == self.offset,
            r.physical == self.physical,
            r.shape@ == self.shape@.take(self.rank() as int - 1) + seq![a, b],
            r.strides@ == self.strides@.take(self.rank() as int - 1) + seq![b, 1usize],
    {
        let n = self.shape.len();
        let mut shape: Vec<usize> = Vec::new();
        let mut strides: Vec<usize> = Vec::new();
        let mut k: usize = 0;
        while k < n - 1
            invariant
                k <= n - 1,
                n == self.shape@.len(),
                self.wf(),
                shape@.len() == k,
                strides@.len() == k,
                shape@ == self.shape@.take(k as int),
                strides@ == self.strides@.take(k as int),
            decreases n - 1 - k,
        {
            shape.push(self.shape[k]);
            strides.push(self.strides[k]);
            k += 1;
        }
        shape.push(a);
        shape.push(b);
        strides.push(b);
        strides.push(1);
        proof {
            assert(shape@ =~= self.shape@.take(n as int - 1) + seq![a, b]);
            assert(strides@ =~= self.strides@.take(n as int - 1) + seq![b, 1usize]);
        }
        Tensor { dt: self.dt, shape, strides, offset: self.offset, physical: self.physical }
    }
}

} // verus!
