//! The typed unit of data exchanged between rows, columns, and the
//! evaluation engine: a tagged union of fixed-width integers, booleans, and
//! vectors of such values, with broadcasting arithmetic, comparison, and
//! logical operations.
//!
//! Arithmetic between two same-typed integer scalars wraps around on
//! overflow (the fixed-width two's-complement behaviour); division by zero
//! is reported as an error rather than delegated. Operations on vectors are
//! element-wise and require equal lengths; an operation between a scalar and
//! a vector broadcasts the scalar to every element. Combining two
//! differently-typed scalars is a type mismatch, reported as an error and
//! never coerced.

use vstd::prelude::*;

verus! {

/// The type of data stored in a column.
#[derive(Debug, PartialEq)]
pub enum MPCMetricDType {
    MPCInt32(i32),
    MPCInt64(i64),
    MPCUInt32(u32),
    MPCUInt64(u64),
    MPCBool(bool),
    Vec(Vec<MPCMetricDType>),
}

/// The mathematical model of an `MPCMetricDType`: the same tree of values
/// with every vector abstracted to a sequence.
pub enum DTypeView {
    Int32(i32),
    Int64(i64),
    UInt32(u32),
    UInt64(u64),
    Bool(bool),
    Vector(Seq<DTypeView>),
}

/// The model of a value: scalars map to themselves, vectors to the sequence
/// of their elements' models.
pub open spec fn dtype_view(d: MPCMetricDType) -> DTypeView
    decreases d,
{
    match d {
        MPCMetricDType::MPCInt32(x) => DTypeView::Int32(x),
        MPCMetricDType::MPCInt64(x) => DTypeView::Int64(x),
        MPCMetricDType::MPCUInt32(x) => DTypeView::UInt32(x),
        MPCMetricDType::MPCUInt64(x) => DTypeView::UInt64(x),
        MPCMetricDType::MPCBool(x) => DTypeView::Bool(x),
        MPCMetricDType::Vec(v) => DTypeView::Vector(dtype_view_seq(v@)),
    }
}

/// The models of a sequence of values, element by element.
pub open spec fn dtype_view_seq(s: Seq<MPCMetricDType>) -> Seq<DTypeView>
    decreases s,
{
    if s.len() == 0 {
        Seq::empty()
    } else {
        seq![dtype_view(s.first())] + dtype_view_seq(s.drop_first())
    }
}

/// `dtype_view_seq` maps `dtype_view` over the sequence: it keeps the length
/// and models each element in place.
pub proof fn lemma_dtype_view_seq(s: Seq<MPCMetricDType>)
    ensures
        dtype_view_seq(s).len() == s.len(),
        forall|i: int| 0 <= i < s.len() ==> dtype_view_seq(s)[i] == dtype_view(#[trigger] s[i]),
        forall|i: int| 0 <= i < s.len() ==> #[trigger] dtype_view_seq(s)[i] == dtype_view(s[i]),
    decreases s.len(),
{
    if s.len() > 0 {
        lemma_dtype_view_seq(s.drop_first());
        assert forall|i: int| 0 <= i < s.len() implies dtype_view_seq(s)[i] == dtype_view(
            #[trigger] s[i],
        ) by {
            if i > 0 {
                assert(s.drop_first()[i - 1] == s[i]);
            }
        }
    }
}

impl View for MPCMetricDType {
    type V = DTypeView;

    open spec fn view(&self) -> DTypeView {
        dtype_view(*self)
    }
}

/// How an operation of the value algebra can fail.
#[derive(Clone, Copy, Debug, PartialEq, Eq, Structural)]
pub enum DTypeError {
    /// The two operands hold differently-typed values, or an extraction
    /// asked for a concrete type other than the stored one.
    TypeMismatch,
    /// The two operands are vectors of unequal length.
    LengthMismatch,
    /// The operation is not defined for the operand type (arithmetic or
    /// comparison on booleans, logical operations on integers).
    UnsupportedOperation,
    /// Integer division with a zero divisor.
    DivideByZero,
}

/// A binary operation of the value algebra.
#[derive(Clone, Copy, Debug, PartialEq, Eq, Structural)]
pub enum BinOp {
    /// Wrapping addition of same-typed integer scalars.
    Add,
    /// Wrapping subtraction of same-typed integer scalars.
    Sub,
    /// Wrapping multiplication of same-typed integer scalars.
    Mul,
    /// Truncating division of same-typed integer scalars; a zero divisor is
    /// an error, and the one overflowing signed quotient wraps.
    Div,
    /// Comparisons of same-typed integer scalars, yielding a boolean value.
    Lt,
    Gt,
    Lte,
    Gte,
    Equal,
    /// Logical operations, defined for boolean scalars only.
    And,
    Or,
    Xor,
}

/// Whether `op` is one of the logical operations (defined on booleans only).
pub open spec fn is_logical(op: BinOp) -> bool {
    op is And || op is Or || op is Xor
}

/// Whether `op` is one of the comparisons (yielding a boolean).
pub open spec fn is_comparison(op: BinOp) -> bool {
    op is Lt || op is Gt || op is Lte || op is Gte || op is Equal
}

/// The comparison `op` decides on two integer scalars, read as unbounded
/// values.
pub open spec fn int_cmp(op: BinOp, x: int, y: int) -> bool
    recommends
        is_comparison(op),
{
    match op {
        BinOp::Lt => x < y,
        BinOp::Gt => x > y,
        BinOp::Lte => x <= y,
        BinOp::Gte => x >= y,
        _ => x == y,
    }
}

/// `op` applied to two `i32` scalars, for the arithmetic operations:
/// addition, subtraction, and multiplication wrap, and division truncates,
/// its one overflowing quotient wrapping to the minimum.
pub open spec fn arith_i32(op: BinOp, x: i32, y: i32) -> i32 {
    match op {
        BinOp::Add => vstd::wrapping::i32_specs::wrapping_add(x, y),
        BinOp::Sub => vstd::wrapping::i32_specs::wrapping_sub(x, y),
        BinOp::Mul => vstd::wrapping::i32_specs::wrapping_mul(x, y),
        _ => match x.checked_div(y) {
            Some(q) => q,
            None => i32::MIN,
        },
    }
}

/// `op` applied to two `i64` scalars.
pub open spec fn arith_i64(op: BinOp, x: i64, y: i64) -> i64 {
    match op {
        BinOp::Add => vstd::wrapping::i64_specs::wrapping_add(x, y),
        BinOp::Sub => vstd::wrapping::i64_specs::wrapping_sub(x, y),
        BinOp::Mul => vstd::wrapping::i64_specs::wrapping_mul(x, y),
        _ => match x.checked_div(y) {
            Some(q) => q,
            None => i64::MIN,
        },
    }
}

/// `op` applied to two `u32` scalars.
pub open spec fn arith_u32(op: BinOp, x: u32, y: u32) -> u32 {
    match op {
        BinOp::Add => vstd::wrapping::u32_specs::wrapping_add(x, y),
        BinOp::Sub => vstd::wrapping::u32_specs::wrapping_sub(x, y),
        BinOp::Mul => vstd::wrapping::u32_specs::wrapping_mul(x, y),
        _ => match x.checked_div(y) {
            Some(q) => q,
            None => 0,
        },
    }
}

/// `op` applied to two `u64` scalars.
pub open spec fn arith_u64(op: BinOp, x: u64, y: u64) -> u64 {
    match op {
        BinOp::Add => vstd::wrapping::u64_specs::wrapping_add(x, y),
        BinOp::Sub => vstd::wrapping::u64_specs::wrapping_sub(x, y),
        BinOp::Mul => vstd::wrapping::u64_specs::wrapping_mul(x, y),
        _ => match x.checked_div(y) {
            Some(q) => q,
            None => 0,
        },
    }
}

/// `op` on two integer scalars of one width: a comparison yields a boolean,
/// a logical operation is unsupported, division by zero is an error, and
/// the arithmetic operations wrap.
pub open spec fn spec_scalar_ints(
    op: BinOp,
    y_zero: bool,
    cmp: bool,
    arith: DTypeView,
) -> Result<DTypeView, DTypeError> {
    if is_logical(op) {
        Err(DTypeError::UnsupportedOperation)
    } else if is_comparison(op) {
        Ok(DTypeView::Bool(cmp))
    } else if op is Div && y_zero {
        Err(DTypeError::DivideByZero)
    } else {
        Ok(arith)
    }
}

/// `op` on two scalar (non-vector) values. Differently-typed scalars are a
/// type mismatch; booleans support only the logical operations; integers
/// support arithmetic and comparisons.
pub open spec fn spec_scalar(op: BinOp, a: DTypeView, b: DTypeView) -> Result<
    DTypeView,
    DTypeError,
> {
    match (a, b) {
        (DTypeView::Int32(x), DTypeView::Int32(y)) => spec_scalar_ints(
            op,
            y == 0,
            int_cmp(op, x as int, y as int),
            DTypeView::Int32(arith_i32(op, x, y)),
        ),
        (DTypeView::Int64(x), DTypeView::Int64(y)) => spec_scalar_ints(
            op,
            y == 0,
            int_cmp(op, x as int, y as int),
            DTypeView::Int64(arith_i64(op, x, y)),
        ),
        (DTypeView::UInt32(x), DTypeView::UInt32(y)) => spec_scalar_ints(
            op,
            y == 0,
            int_cmp(op, x as int, y as int),
            DTypeView::UInt32(arith_u32(op, x, y)),
        ),
        (DTypeView::UInt64(x), DTypeView::UInt64(y)) => spec_scalar_ints(
            op,
            y == 0,
            int_cmp(op, x as int, y as int),
            DTypeView::UInt64(arith_u64(op, x, y)),
        ),
        (DTypeView::Bool(x), DTypeView::Bool(y)) => match op {
            BinOp::And => Ok(DTypeView::Bool(x && y)),
            BinOp::Or => Ok(DTypeView::Bool(x || y)),
            BinOp::Xor => Ok(DTypeView::Bool(x != y)),
            _ => Err(DTypeError::UnsupportedOperation),
        },
        _ => Err(DTypeError::TypeMismatch),
    }
}

/// `op` applied to two values of the algebra.
///
/// Two vectors combine element-wise and must have equal lengths; a scalar
/// beside a vector broadcasts to every element; two scalars combine as
/// `spec_scalar` says. Errors propagate from the leftmost failing element.
pub open spec fn spec_bin(op: BinOp, a: DTypeView, b: DTypeView) -> Result<DTypeView, DTypeError>
    decreases a, b,
{
    match (a, b) {
        (DTypeView::Vector(x), DTypeView::Vector(y)) => if x.len() != y.len() {
            Err(DTypeError::LengthMismatch)
        } else {
            match spec_bin_zip(op, x, y) {
                Ok(v) => Ok(DTypeView::Vector(v)),
                Err(e) => Err(e),
            }
        },
        (DTypeView::Vector(x), _) => match spec_bin_each_left(op, x, b) {
            Ok(v) => Ok(DTypeView::Vector(v)),
            Err(e) => Err(e),
        },
        (_, DTypeView::Vector(y)) => match spec_bin_each_right(op, a, y) {
            Ok(v) => Ok(DTypeView::Vector(v)),
            Err(e) => Err(e),
        },
        _ => spec_scalar(op, a, b),
    }
}

/// `op` applied pairwise to two equally long sequences of values; the first
/// failing pair's error propagates.
pub open spec fn spec_bin_zip(op: BinOp, x: Seq<DTypeView>, y: Seq<DTypeView>) -> Result<
    Seq<DTypeView>,
    DTypeError,
>
    recommends
        x.len() == y.len(),
    decreases x, y,
{
    if x.len() == 0 || y.len() == 0 {
        Ok(Seq::empty())
    } else {
        match spec_bin(op, x.first(), y.first()) {
            Ok(v) => match spec_bin_zip(op, x.drop_first(), y.drop_first()) {
                Ok(t) => Ok(seq![v] + t),
                Err(e) => Err(e),
            },
            Err(e) => Err(e),
        }
    }
}

/// `op` applied to each element of `x` on the left and the scalar `b` on
/// the right; the first failing element's error propagates.
pub open spec fn spec_bin_each_left(op: BinOp, x: Seq<DTypeView>, b: DTypeView) -> Result<
    Seq<DTypeView>,
    DTypeError,
>
    decreases x, b,
{
    if x.len() == 0 {
        Ok(Seq::empty())
    } else {
        match spec_bin(op, x.first(), b) {
            Ok(v) => match spec_bin_each_left(op, x.drop_first(), b) {
                Ok(t) => Ok(seq![v] + t),
                Err(e) => Err(e),
            },
            Err(e) => Err(e),
        }
    }
}

/// `op` applied to the scalar `a` on the left and each element of `y` on
/// the right; the first failing element's error propagates.
pub open spec fn spec_bin_each_right(op: BinOp, a: DTypeView, y: Seq<DTypeView>) -> Result<
    Seq<DTypeView>,
    DTypeError,
>
    decreases a, y,
{
    if y.len() == 0 {
        Ok(Seq::empty())
    } else {
        match spec_bin(op, a, y.first()) {
            Ok(v) => match spec_bin_each_right(op, a, y.drop_first()) {
                Ok(t) => Ok(seq![v] + t),
                Err(e) => Err(e),
            },
            Err(e) => Err(e),
        }
    }
}

/// The model of an optional value: the value's model when present.
pub open spec fn opt_view(r: Option<MPCMetricDType>) -> Option<DTypeView> {
    match r {
        Some(v) => Some(dtype_view(v)),
        None => None,
    }
}

/// The model of an operation's result: the value's model on success, the
/// same error on failure.
pub open spec fn res_view(r: Result<MPCMetricDType, DTypeError>) -> Result<DTypeView, DTypeError> {
    match r {
        Ok(v) => Ok(dtype_view(v)),
        Err(e) => Err(e),
    }
}

/// Unrolls `spec_bin_zip` at a prefix: while every pair before `j` succeeds,
/// the zip either succeeds with the element-wise values (when `j` reaches the
/// end) or fails with the error of pair `j`.
proof fn lemma_zip_prefix(op: BinOp, x: Seq<DTypeView>, y: Seq<DTypeView>, j: int)
    requires
        x.len() == y.len(),
        0 <= j <= x.len(),
        forall|k: int| 0 <= k < j ==> spec_bin(op, #[trigger] x[k], y[k]) is Ok,
    ensures
        j == x.len() ==> {
            &&& spec_bin_zip(op, x, y) is Ok
            &&& spec_bin_zip(op, x, y)->Ok_0.len() == x.len()
            &&& forall|k: int|
                0 <= k < x.len() ==> spec_bin_zip(op, x, y)->Ok_0[k] == spec_bin(
                    op,
                    #[trigger] x[k],
                    y[k],
                )->Ok_0
        },
        j < x.len() && spec_bin(op, x[j], y[j]) is Err ==> spec_bin_zip(op, x, y) == Err::<
            Seq<DTypeView>,
            DTypeError,
        >(spec_bin(op, x[j], y[j])->Err_0),
    decreases x.len(),
{
    if x.len() > 0 {
        if j == 0 {
            if spec_bin(op, x[0], y[0]) is Err {
            }
        } else {
            let xt = x.drop_first();
            let yt = y.drop_first();
            assert(forall|k: int|
                0 <= k < xt.len() ==> #[trigger] xt[k] == x[k + 1] && yt[k] == y[k + 1]);
            assert(spec_bin(op, x.first(), y.first()) is Ok);
            lemma_zip_prefix(op, xt, yt, j - 1);
            if j == x.len() {
                let v0 = spec_bin(op, x.first(), y.first())->Ok_0;
                let t = spec_bin_zip(op, xt, yt)->Ok_0;
                assert(spec_bin_zip(op, x, y) == Ok::<Seq<DTypeView>, DTypeError>(seq![v0] + t));
                assert forall|k: int| 0 <= k < x.len() implies spec_bin_zip(op, x, y)->Ok_0[k]
                    == spec_bin(op, #[trigger] x[k], y[k])->Ok_0 by {
                    if k == 0 {
                        assert((seq![v0] + t)[0] == v0);
                    } else {
                        assert((seq![v0] + t)[k] == t[k - 1]);
                        assert(xt[k - 1] == x[k] && yt[k - 1] == y[k]);
                    }
                }
            }
        }
    }
}

/// Unrolls `spec_bin_each_left` at a prefix, as `lemma_zip_prefix` does for
/// `spec_bin_zip`.
proof fn lemma_each_left_prefix(op: BinOp, x: Seq<DTypeView>, b: DTypeView, j: int)
    requires
        0 <= j <= x.len(),
        forall|k: int| 0 <= k < j ==> spec_bin(op, #[trigger] x[k], b) is Ok,
    ensures
        j == x.len() ==> {
            &&& spec_bin_each_left(op, x, b) is Ok
            &&& spec_bin_each_left(op, x, b)->Ok_0.len() == x.len()
            &&& forall|k: int|
                0 <= k < x.len() ==> spec_bin_each_left(op, x, b)->Ok_0[k] == spec_bin(
                    op,
                    #[trigger] x[k],
                    b,
                )->Ok_0
        },
        j < x.len() && spec_bin(op, x[j], b) is Err ==> spec_bin_each_left(op, x, b) == Err::<
            Seq<DTypeView>,
            DTypeError,
        >(spec_bin(op, x[j], b)->Err_0),
    decreases x.len(),
{
    if x.len() > 0 {
        if j == 0 {
        } else {
            let xt = x.drop_first();
            assert(forall|k: int| 0 <= k < xt.len() ==> #[trigger] xt[k] == x[k + 1]);
            assert(spec_bin(op, x.first(), b) is Ok);
            lemma_each_left_prefix(op, xt, b, j - 1);
            if j == x.len() {
                let v0 = spec_bin(op, x.first(), b)->Ok_0;
                let t = spec_bin_each_left(op, xt, b)->Ok_0;
                assert(spec_bin_each_left(op, x, b) == Ok::<Seq<DTypeView>, DTypeError>(
                    seq![v0] + t,
                ));
                assert forall|k: int| 0 <= k < x.len() implies spec_bin_each_left(op, x, b)->Ok_0[k]
                    == spec_bin(op, #[trigger] x[k], b)->Ok_0 by {
                    if k == 0 {
                        assert((seq![v0] + t)[0] == v0);
                    } else {
                        assert((seq![v0] + t)[k] == t[k - 1]);
                        assert(xt[k - 1] == x[k]);
                    }
                }
            }
        }
    }
}

/// Unrolls `spec_bin_each_right` at a prefix, as `lemma_zip_prefix` does for
/// `spec_bin_zip`.
proof fn lemma_each_right_prefix(op: BinOp, a: DTypeView, y: Seq<DTypeView>, j: int)
    requires
        0 <= j <= y.len(),
        forall|k: int| 0 <= k < j ==> spec_bin(op, a, #[trigger] y[k]) is Ok,
    ensures
        j == y.len() ==> {
            &&& spec_bin_each_right(op, a, y) is Ok
            &&& spec_bin_each_right(op, a, y)->Ok_0.len() == y.len()
            &&& forall|k: int|
                0 <= k < y.len() ==> spec_bin_each_right(op, a, y)->Ok_0[k] == spec_bin(
                    op,
                    a,
                    #[trigger] y[k],
                )->Ok_0
        },
        j < y.len() && spec_bin(op, a, y[j]) is Err ==> spec_bin_each_right(op, a, y) == Err::<
            Seq<DTypeView>,
            DTypeError,
        >(spec_bin(op, a, y[j])->Err_0),
    decreases y.len(),
{
    if y.len() > 0 {
        if j == 0 {
        } else {
            let yt = y.drop_first();
            assert(forall|k: int| 0 <= k < yt.len() ==> #[trigger] yt[k] == y[k + 1]);
            assert(spec_bin(op, a, y.first()) is Ok);
            lemma_each_right_prefix(op, a, yt, j - 1);
            if j == y.len() {
                let v0 = spec_bin(op, a, y.first())->Ok_0;
                let t = spec_bin_each_right(op, a, yt)->Ok_0;
                assert(spec_bin_each_right(op, a, y) == Ok::<Seq<DTypeView>, DTypeError>(
                    seq![v0] + t,
                ));
                assert forall|k: int| 0 <= k < y.len() implies spec_bin_each_right(
                    op,
                    a,
                    y,
                )->Ok_0[k] == spec_bin(op, a, #[trigger] y[k])->Ok_0 by {
                    if k == 0 {
                        assert((seq![v0] + t)[0] == v0);
                    } else {
                        assert((seq![v0] + t)[k] == t[k - 1]);
                        assert(yt[k - 1] == y[k]);
                    }
                }
            }
        }
    }
}

/// Element-wise law: an operation on two equally long vectors succeeds
/// exactly when it succeeds on every aligned pair of elements, and then
/// yields the vector of the pairs' results, in place.
pub proof fn lemma_elementwise(op: BinOp, x: Seq<DTypeView>, y: Seq<DTypeView>)
    requires
        x.len() == y.len(),
        forall|i: int| 0 <= i < x.len() ==> spec_bin(op, #[trigger] x[i], y[i]) is Ok,
    ensures
        spec_bin(op, DTypeView::Vector(x), DTypeView::Vector(y)) is Ok,
        spec_bin(op, DTypeView::Vector(x), DTypeView::Vector(y))->Ok_0 is Vector,
        spec_bin(op, DTypeView::Vector(x), DTypeView::Vector(y))->Ok_0->Vector_0.len() == x.len(),
        forall|i: int|
            0 <= i < x.len() ==> spec_bin(op, DTypeView::Vector(x), DTypeView::Vector(
                y,
            ))->Ok_0->Vector_0[i] == spec_bin(op, #[trigger] x[i], y[i])->Ok_0,
{
    lemma_zip_prefix(op, x, y, x.len() as int);
}

/// Broadcast law, scalar on the left: a scalar beside a vector combines
/// with every element, and on success yields the vector of those results,
/// in place.
pub proof fn lemma_broadcast_left(op: BinOp, a: DTypeView, y: Seq<DTypeView>)
    requires
        !(a is Vector),
        forall|i: int| 0 <= i < y.len() ==> spec_bin(op, a, #[trigger] y[i]) is Ok,
    ensures
        spec_bin(op, a, DTypeView::Vector(y)) is Ok,
        spec_bin(op, a, DTypeView::Vector(y))->Ok_0 is Vector,
        spec_bin(op, a, DTypeView::Vector(y))->Ok_0->Vector_0.len() == y.len(),
        forall|i: int|
            0 <= i < y.len() ==> spec_bin(op, a, DTypeView::Vector(y))->Ok_0->Vector_0[i]
                == spec_bin(op, a, #[trigger] y[i])->Ok_0,
{
    lemma_each_right_prefix(op, a, y, y.len() as int);
}

/// Broadcast law, scalar on the right: a vector beside a scalar combines
/// every element with the scalar, and on success yields the vector of
/// those results, in place.
pub proof fn lemma_broadcast_right(op: BinOp, x: Seq<DTypeView>, b: DTypeView)
    requires
        !(b is Vector),
        forall|i: int| 0 <= i < x.len() ==> spec_bin(op, #[trigger] x[i], b) is Ok,
    ensures
        spec_bin(op, DTypeView::Vector(x), b) is Ok,
        spec_bin(op, DTypeView::Vector(x), b)->Ok_0 is Vector,
        spec_bin(op, DTypeView::Vector(x), b)->Ok_0->Vector_0.len() == x.len(),
        forall|i: int|
            0 <= i < x.len() ==> spec_bin(op, DTypeView::Vector(x), b)->Ok_0->Vector_0[i]
                == spec_bin(op, #[trigger] x[i], b)->Ok_0,
{
    lemma_each_left_prefix(op, x, b, x.len() as int);
}

/// Two differently-typed scalars never combine: the operation fails with a
/// type mismatch, and never coerces.
pub proof fn lemma_no_coercion(op: BinOp, a: DTypeView, b: DTypeView)
    requires
        !(a is Vector),
        !(b is Vector),
        !scalar_same_type(a, b),
    ensures
        spec_bin(op, a, b) == Err::<DTypeView, DTypeError>(DTypeError::TypeMismatch),
{
}

/// Whether two scalar values hold the same concrete type.
pub open spec fn scalar_same_type(a: DTypeView, b: DTypeView) -> bool {
    match (a, b) {
        (DTypeView::Int32(_), DTypeView::Int32(_)) => true,
        (DTypeView::Int64(_), DTypeView::Int64(_)) => true,
        (DTypeView::UInt32(_), DTypeView::UInt32(_)) => true,
        (DTypeView::UInt64(_), DTypeView::UInt64(_)) => true,
        (DTypeView::Bool(_), DTypeView::Bool(_)) => true,
        _ => false,
    }
}

/// `op` on two `i32` scalars, as `spec_scalar` says for that pair.
fn bin_i32(op: BinOp, x: i32, y: i32) -> (r: Result<MPCMetricDType, DTypeError>)
    ensures
        res_view(r) == spec_scalar(op, DTypeView::Int32(x), DTypeView::Int32(y)),
{
    match op {
        BinOp::Add => Ok(MPCMetricDType::MPCInt32(x.wrapping_add(y))),
        BinOp::Sub => Ok(MPCMetricDType::MPCInt32(x.wrapping_sub(y))),
        BinOp::Mul => Ok(MPCMetricDType::MPCInt32(x.wrapping_mul(y))),
        BinOp::Div => if y == 0 {
            Err(DTypeError::DivideByZero)
        } else {
            match x.checked_div(y) {
                Some(q) => Ok(MPCMetricDType::MPCInt32(q)),
                None => Ok(MPCMetricDType::MPCInt32(i32::MIN)),
            }
        },
        BinOp::Lt => Ok(MPCMetricDType::MPCBool(x < y)),
        BinOp::Gt => Ok(MPCMetricDType::MPCBool(x > y)),
        BinOp::Lte => Ok(MPCMetricDType::MPCBool(x <= y)),
        BinOp::Gte => Ok(MPCMetricDType::MPCBool(x >= y)),
        BinOp::Equal => Ok(MPCMetricDType::MPCBool(x == y)),
        _ => Err(DTypeError::UnsupportedOperation),
    }
}

/// `op` on two `i64` scalars, as `spec_scalar` says for that pair.
fn bin_i64(op: BinOp, x: i64, y: i64) -> (r: Result<MPCMetricDType, DTypeError>)
    ensures
        res_view(r) == spec_scalar(op, DTypeView::Int64(x), DTypeView::Int64(y)),
{
    match op {
        BinOp::Add => Ok(MPCMetricDType::MPCInt64(x.wrapping_add(y))),
        BinOp::Sub => Ok(MPCMetricDType::MPCInt64(x.wrapping_sub(y))),
        BinOp::Mul => Ok(MPCMetricDType::MPCInt64(x.wrapping_mul(y))),
        BinOp::Div => if y == 0 {
            Err(DTypeError::DivideByZero)
        } else {
            match x.checked_div(y) {
                Some(q) => Ok(MPCMetricDType::MPCInt64(q)),
                None => Ok(MPCMetricDType::MPCInt64(i64::MIN)),
            }
        },
        BinOp::Lt => Ok(MPCMetricDType::MPCBool(x < y)),
        BinOp::Gt => Ok(MPCMetricDType::MPCBool(x > y)),
        BinOp::Lte => Ok(MPCMetricDType::MPCBool(x <= y)),
        BinOp::Gte => Ok(MPCMetricDType::MPCBool(x >= y)),
        BinOp::Equal => Ok(MPCMetricDType::MPCBool(x == y)),
        _ => Err(DTypeError::UnsupportedOperation),
    }
}

/// `op` on two `u32` scalars, as `spec_scalar` says for that pair.
fn bin_u32(op: BinOp, x: u32, y: u32) -> (r: Result<MPCMetricDType, DTypeError>)
    ensures
        res_view(r) == spec_scalar(op, DTypeView::UInt32(x), DTypeView::UInt32(y)),
{
    match op {
        BinOp::Add => Ok(MPCMetricDType::MPCUInt32(x.wrapping_add(y))),
        BinOp::Sub => Ok(MPCMetricDType::MPCUInt32(x.wrapping_sub(y))),
        BinOp::Mul => Ok(MPCMetricDType::MPCUInt32(x.wrapping_mul(y))),
        BinOp::Div => if y == 0 {
            Err(DTypeError::DivideByZero)
        } else {
            match x.checked_div(y) {
                Some(q) => Ok(MPCMetricDType::MPCUInt32(q)),
                None => Ok(MPCMetricDType::MPCUInt32(0)),
            }
        },
        BinOp::Lt => Ok(MPCMetricDType::MPCBool(x < y)),
        BinOp::Gt => Ok(MPCMetricDType::MPCBool(x > y)),
        BinOp::Lte => Ok(MPCMetricDType::MPCBool(x <= y)),
        BinOp::Gte => Ok(MPCMetricDType::MPCBool(x >= y)),
        BinOp::Equal => Ok(MPCMetricDType::MPCBool(x == y)),
        _ => Err(DTypeError::UnsupportedOperation),
    }
}

/// `op` on two `u64` scalars, as `spec_scalar` says for that pair.
fn bin_u64(op: BinOp, x: u64, y: u64) -> (r: Result<MPCMetricDType, DTypeError>)
    ensures
        res_view(r) == spec_scalar(op, DTypeView::UInt64(x), DTypeView::UInt64(y)),
{
    match op {
        BinOp::Add => Ok(MPCMetricDType::MPCUInt64(x.wrapping_add(y))),
        BinOp::Sub => Ok(MPCMetricDType::MPCUInt64(x.wrapping_sub(y))),
        BinOp::Mul => Ok(MPCMetricDType::MPCUInt64(x.wrapping_mul(y))),
        BinOp::Div => if y == 0 {
            Err(DTypeError::DivideByZero)
        } else {
            match x.checked_div(y) {
                Some(q) => Ok(MPCMetricDType::MPCUInt64(q)),
                None => Ok(MPCMetricDType::MPCUInt64(0)),
            }
        },
        BinOp::Lt => Ok(MPCMetricDType::MPCBool(x < y)),
        BinOp::Gt => Ok(MPCMetricDType::MPCBool(x > y)),
        BinOp::Lte => Ok(MPCMetricDType::MPCBool(x <= y)),
        BinOp::Gte => Ok(MPCMetricDType::MPCBool(x >= y)),
        BinOp::Equal => Ok(MPCMetricDType::MPCBool(x == y)),
        _ => Err(DTypeError::UnsupportedOperation),
    }
}

/// `op` on two `bool` scalars, as `spec_scalar` says for that pair.
fn bin_bool(op: BinOp, x: bool, y: bool) -> (r: Result<MPCMetricDType, DTypeError>)
    ensures
        res_view(r) == spec_scalar(op, DTypeView::Bool(x), DTypeView::Bool(y)),
{
    match op {
        BinOp::And => Ok(MPCMetricDType::MPCBool(x && y)),
        BinOp::Or => Ok(MPCMetricDType::MPCBool(x || y)),
        BinOp::Xor => Ok(MPCMetricDType::MPCBool(x != y)),
        _ => Err(DTypeError::UnsupportedOperation),
    }
}

impl MPCMetricDType {
    /// Applies one binary operation of the value algebra, exactly as
    /// `spec_bin` says: element-wise on equally long vectors, broadcasting a
    /// scalar beside a vector, wrapping arithmetic on same-typed integer
    /// scalars, and an error on mismatched types, mismatched lengths,
    /// unsupported operand types, and zero divisors.
    #[verifier::loop_isolation(false)]
    pub fn apply_binary(&self, op: BinOp, other: &Self) -> (r: Result<MPCMetricDType, DTypeError>)
        ensures
            res_view(r) == spec_bin(op, self@, other@),
        decreases *self, *other,
    {
        match (self, other) {
            (MPCMetricDType::Vec(x), MPCMetricDType::Vec(y)) => {
                let ghost gx = dtype_view_seq(x@);
                let ghost gy = dtype_view_seq(y@);
                proof {
                    lemma_dtype_view_seq(x@);
                    lemma_dtype_view_seq(y@);
                    assert(self@ == DTypeView::Vector(gx));
                    assert(other@ == DTypeView::Vector(gy));
                }
                if x.len() != y.len() {
                    return Err(DTypeError::LengthMismatch);
                }
                let mut out: Vec<MPCMetricDType> = Vec::new();
                let mut i: usize = 0;
                while i < x.len()
                    invariant
                        x@.len() == y@.len(),
                        i <= x@.len(),
                        gx == dtype_view_seq(x@),
                        gy == dtype_view_seq(y@),
                        gx.len() == x@.len(),
                        gy.len() == y@.len(),
                        forall|k: int| 0 <= k < x@.len() ==> gx[k] == dtype_view(#[trigger] x@[k]),
                        forall|k: int| 0 <= k < y@.len() ==> gy[k] == dtype_view(#[trigger] y@[k]),
                        out@.len() == i,
                        forall|k: int| 0 <= k < i ==> spec_bin(op, #[trigger] gx[k], gy[k]) is Ok,
                        forall|k: int|
                            0 <= k < i ==> dtype_view(#[trigger] out@[k]) == spec_bin(
                                op,
                                gx[k],
                                gy[k],
                            )->Ok_0,
                    decreases x@.len() - i,
                {
                    proof {
                        assert(decreases_to!(*self => self->Vec_0));
                        assert(decreases_to!(self->Vec_0 => self->Vec_0@));
                        assert(decreases_to!(self->Vec_0@ => self->Vec_0@[i as int]));
                    }
                    match x[i].apply_binary(op, &y[i]) {
                        Ok(v) => {
                            out.push(v);
                        },
                        Err(e) => {
                            proof {
                                lemma_zip_prefix(op, gx, gy, i as int);
                            }
                            return Err(e);
                        },
                    }
                    i += 1;
                }
                proof {
                    lemma_zip_prefix(op, gx, gy, gx.len() as int);
                    lemma_dtype_view_seq(out@);
                    assert(dtype_view_seq(out@) =~= spec_bin_zip(op, gx, gy)->Ok_0);
                }
                Ok(MPCMetricDType::Vec(out))
            },
            (MPCMetricDType::Vec(x), _) => {
                let ghost gx = dtype_view_seq(x@);
                proof {
                    lemma_dtype_view_seq(x@);
                    assert(self@ == DTypeView::Vector(gx));
                }
                let mut out: Vec<MPCMetricDType> = Vec::new();
                let mut i: usize = 0;
                while i < x.len()
                    invariant
                        i <= x@.len(),
                        gx == dtype_view_seq(x@),
                        gx.len() == x@.len(),
                        forall|k: int| 0 <= k < x@.len() ==> gx[k] == dtype_view(#[trigger] x@[k]),
                        !(other@ is Vector),
                        out@.len() == i,
                        forall|k: int| 0 <= k < i ==> spec_bin(op, #[trigger] gx[k], other@) is Ok,
                        forall|k: int|
                            0 <= k < i ==> dtype_view(#[trigger] out@[k]) == spec_bin(
                                op,
                                gx[k],
                                other@,
                            )->Ok_0,
                    decreases x@.len() - i,
                {
                    proof {
                        assert(decreases_to!(*self => self->Vec_0));
                        assert(decreases_to!(self->Vec_0 => self->Vec_0@));
                        assert(decreases_to!(self->Vec_0@ => self->Vec_0@[i as int]));
                    }
                    match x[i].apply_binary(op, other) {
                        Ok(v) => {
                            out.push(v);
                        },
                        Err(e) => {
                            proof {
                                lemma_each_left_prefix(op, gx, other@, i as int);
                            }
                            return Err(e);
                        },
                    }
                    i += 1;
                }
                proof {
                    lemma_each_left_prefix(op, gx, other@, gx.len() as int);
                    lemma_dtype_view_seq(out@);
                    assert(dtype_view_seq(out@) =~= spec_bin_each_left(op, gx, other@)->Ok_0);
                }
                Ok(MPCMetricDType::Vec(out))
            },
            (_, MPCMetricDType::Vec(y)) => {
                let ghost gy = dtype_view_seq(y@);
                proof {
                    lemma_dtype_view_seq(y@);
                    assert(other@ == DTypeView::Vector(gy));
                }
                let mut out: Vec<MPCMetricDType> = Vec::new();
                let mut i: usize = 0;
                while i < y.len()
                    invariant
                        i <= y@.len(),
                        gy == dtype_view_seq(y@),
                        gy.len() == y@.len(),
                        forall|k: int| 0 <= k < y@.len() ==> gy[k] == dtype_view(#[trigger] y@[k]),
                        !(self@ is Vector),
                        out@.len() == i,
                        forall|k: int| 0 <= k < i ==> spec_bin(op, self@, #[trigger] gy[k]) is Ok,
                        forall|k: int|
                            0 <= k < i ==> dtype_view(#[trigger] out@[k]) == spec_bin(
                                op,
                                self@,
                                gy[k],
                            )->Ok_0,
                    decreases y@.len() - i,
                {
                    proof {
                        assert(decreases_to!(*other => other->Vec_0));
                        assert(decreases_to!(other->Vec_0 => other->Vec_0@));
                        assert(decreases_to!(other->Vec_0@ => other->Vec_0@[i as int]));
                    }
                    match self.apply_binary(op, &y[i]) {
                        Ok(v) => {
                            out.push(v);
                        },
                        Err(e) => {
                            proof {
                                lemma_each_right_prefix(op, self@, gy, i as int);
                            }
                            return Err(e);
                        },
                    }
                    i += 1;
                }
                proof {
                    lemma_each_right_prefix(op, self@, gy, gy.len() as int);
                    lemma_dtype_view_seq(out@);
                    assert(dtype_view_seq(out@) =~= spec_bin_each_right(op, self@, gy)->Ok_0);
                }
                Ok(MPCMetricDType::Vec(out))
            },
            (MPCMetricDType::MPCInt32(x), MPCMetricDType::MPCInt32(y)) => bin_i32(op, *x, *y),
            (MPCMetricDType::MPCInt64(x), MPCMetricDType::MPCInt64(y)) => bin_i64(op, *x, *y),
            (MPCMetricDType::MPCUInt32(x), MPCMetricDType::MPCUInt32(y)) => bin_u32(op, *x, *y),
            (MPCMetricDType::MPCUInt64(x), MPCMetricDType::MPCUInt64(y)) => bin_u64(op, *x, *y),
            (MPCMetricDType::MPCBool(x), MPCMetricDType::MPCBool(y)) => bin_bool(op, *x, *y),
            _ => Err(DTypeError::TypeMismatch),
        }
    }

    /// Wrapping addition, element-wise and broadcasting over vectors.
    pub fn add(&self, other: &Self) -> (r: Result<MPCMetricDType, DTypeError>)
        ensures
            res_view(r) == spec_bin(BinOp::Add, self@, other@),
    {
        self.apply_binary(BinOp::Add, other)
    }

    /// Wrapping subtraction, element-wise and broadcasting over vectors.
    pub fn sub(&self, other: &Self) -> (r: Result<MPCMetricDType, DTypeError>)
        ensures
            res_view(r) == spec_bin(BinOp::Sub, self@, other@),
    {
        self.apply_binary(BinOp::Sub, other)
    }

    /// Wrapping multiplication, element-wise and broadcasting over vectors.
    pub fn mul(&self, other: &Self) -> (r: Result<MPCMetricDType, DTypeError>)
        ensures
            res_view(r) == spec_bin(BinOp::Mul, self@, other@),
    {
        self.apply_binary(BinOp::Mul, other)
    }

    /// Truncating division, element-wise and broadcasting over vectors; a
    /// zero divisor is reported as an error.
    pub fn div(&self, other: &Self) -> (r: Result<MPCMetricDType, DTypeError>)
        ensures
            res_view(r) == spec_bin(BinOp::Div, self@, other@),
    {
        self.apply_binary(BinOp::Div, other)
    }

    /// Less-than comparison yielding boolean values, with broadcasting.
    pub fn lt(&self, other: &Self) -> (r: Result<MPCMetricDType, DTypeError>)
        ensures
            res_view(r) == spec_bin(BinOp::Lt, self@, other@),
    {
        self.apply_binary(BinOp::Lt, other)
    }

    /// Greater-than comparison yielding boolean values, with broadcasting.
    pub fn gt(&self, other: &Self) -> (r: Result<MPCMetricDType, DTypeError>)
        ensures
            res_view(r) == spec_bin(BinOp::Gt, self@, other@),
    {
        self.apply_binary(BinOp::Gt, other)
    }

    /// At-most comparison yielding boolean values, with broadcasting.
    pub fn lte(&self, other: &Self) -> (r: Result<MPCMetricDType, DTypeError>)
        ensures
            res_view(r) == spec_bin(BinOp::Lte, self@, other@),
    {
        self.apply_binary(BinOp::Lte, other)
    }

    /// At-least comparison yielding boolean values, with broadcasting.
    pub fn gte(&self, other: &Self) -> (r: Result<MPCMetricDType, DTypeError>)
        ensures
            res_view(r) == spec_bin(BinOp::Gte, self@, other@),
    {
        self.apply_binary(BinOp::Gte, other)
    }

    /// Equality comparison yielding boolean values, with broadcasting.
    pub fn eq_values(&self, other: &Self) -> (r: Result<MPCMetricDType, DTypeError>)
        ensures
            res_view(r) == spec_bin(BinOp::Equal, self@, other@),
    {
        self.apply_binary(BinOp::Equal, other)
    }

    /// Logical conjunction of boolean values, with broadcasting.
    pub fn and(&self, other: &Self) -> (r: Result<MPCMetricDType, DTypeError>)
        ensures
            res_view(r) == spec_bin(BinOp::And, self@, other@),
    {
        self.apply_binary(BinOp::And, other)
    }

    /// Logical disjunction of boolean values, with broadcasting.
    pub fn or(&self, other: &Self) -> (r: Result<MPCMetricDType, DTypeError>)
        ensures
            res_view(r) == spec_bin(BinOp::Or, self@, other@),
    {
        self.apply_binary(BinOp::Or, other)
    }

    /// Logical exclusive or of boolean values, with broadcasting.
    pub fn xor(&self, other: &Self) -> (r: Result<MPCMetricDType, DTypeError>)
        ensures
            res_view(r) == spec_bin(BinOp::Xor, self@, other@),
    {
        self.apply_binary(BinOp::Xor, other)
    }

    /// Extracts the inner `i32`; any other stored variant is a type mismatch.
    pub fn take_inner_i32(self) -> (r: Result<i32, DTypeError>)
        ensures
            r == (match self@ {
                DTypeView::Int32(x) => Ok::<i32, DTypeError>(x),
                _ => Err::<i32, DTypeError>(DTypeError::TypeMismatch),
            }),
    {
        match self {
            MPCMetricDType::MPCInt32(x) => Ok(x),
            _ => Err(DTypeError::TypeMismatch),
        }
    }

    /// Extracts the inner `i64`; any other stored variant is a type mismatch.
    pub fn take_inner_i64(self) -> (r: Result<i64, DTypeError>)
        ensures
            r == (match self@ {
                DTypeView::Int64(x) => Ok::<i64, DTypeError>(x),
                _ => Err::<i64, DTypeError>(DTypeError::TypeMismatch),
            }),
    {
        match self {
            MPCMetricDType::MPCInt64(x) => Ok(x),
            _ => Err(DTypeError::TypeMismatch),
        }
    }

    /// Extracts the inner `u32`; any other stored variant is a type mismatch.
    pub fn take_inner_u32(self) -> (r: Result<u32, DTypeError>)
        ensures
            r == (match self@ {
                DTypeView::UInt32(x) => Ok::<u32, DTypeError>(x),
                _ => Err::<u32, DTypeError>(DTypeError::TypeMismatch),
            }),
    {
        match self {
            MPCMetricDType::MPCUInt32(x) => Ok(x),
            _ => Err(DTypeError::TypeMismatch),
        }
    }

    /// Extracts the inner `u64`; any other stored variant is a type mismatch.
    pub fn take_inner_u64(self) -> (r: Result<u64, DTypeError>)
        ensures
            r == (match self@ {
                DTypeView::UInt64(x) => Ok::<u64, DTypeError>(x),
                _ => Err::<u64, DTypeError>(DTypeError::TypeMismatch),
            }),
    {
        match self {
            MPCMetricDType::MPCUInt64(x) => Ok(x),
            _ => Err(DTypeError::TypeMismatch),
        }
    }

    /// Extracts the inner `bool`; any other stored variant is a type mismatch.
    pub fn take_inner_bool(self) -> (r: Result<bool, DTypeError>)
        ensures
            r == (match self@ {
                DTypeView::Bool(x) => Ok::<bool, DTypeError>(x),
                _ => Err::<bool, DTypeError>(DTypeError::TypeMismatch),
            }),
    {
        match self {
            MPCMetricDType::MPCBool(x) => Ok(x),
            _ => Err(DTypeError::TypeMismatch),
        }
    }

    /// Extracts the inner vector of values; any other stored variant is a
    /// type mismatch.
    pub fn take_inner_vec(self) -> (r: Result<Vec<MPCMetricDType>, DTypeError>)
        ensures
            match r {
                Ok(v) => self@ is Vector && self@->Vector_0 == dtype_view_seq(v@),
                Err(e) => !(self@ is Vector) && e == DTypeError::TypeMismatch,
            },
    {
        match self {
            MPCMetricDType::Vec(v) => Ok(v),
            _ => Err(DTypeError::TypeMismatch),
        }
    }
}

} // verus!
