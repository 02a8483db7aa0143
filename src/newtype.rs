use vstd::prelude::*;

verus! {

/// A single-field wrapper whose derivations forward to the field.
#[derive(Clone, Copy, Debug, PartialEq, Eq)]
pub struct Newtype<T> {
    pub inner: T,
}

/// A binary operator that a newtype can forward.
#[derive(Clone, Copy, Debug, PartialEq, Eq, Structural)]
pub enum BinaryOp {
    Add,
    Sub,
    Mul,
    Div,
    Rem,
    BitAnd,
    BitOr,
    BitXor,
    Shl,
    Shr,
}

/// A unary operator that a newtype can forward.
#[derive(Clone, Copy, Debug, PartialEq, Eq, Structural)]
pub enum UnaryOp {
    Neg,
    Not,
}

/// What `a op b` gives on `i32`, or `None` where the operator panics
/// (overflow, division by zero, a shift by a negative amount or by 32 or more).
pub open spec fn binary_result(op: BinaryOp, a: i32, b: i32) -> Option<i32> {
    match op {
        BinaryOp::Add => a.checked_add(b),
        BinaryOp::Sub => a.checked_sub(b),
        BinaryOp::Mul => a.checked_mul(b),
        BinaryOp::Div => a.checked_div(b),
        BinaryOp::Rem => a.checked_rem(b),
        BinaryOp::BitAnd => Some(a & b),
        BinaryOp::BitOr => Some(a | b),
        BinaryOp::BitXor => Some(a ^ b),
        BinaryOp::Shl => if 0 <= b < 32 {
            Some(a.wrapping_shl(b as u32))
        } else {
            None
        },
        BinaryOp::Shr => if 0 <= b < 32 {
            Some(a.wrapping_shr(b as u32))
        } else {
            None
        },
    }
}

/// What `op a` gives on `i32`, or `None` where it overflows.
pub open spec fn unary_result(op: UnaryOp, a: i32) -> Option<i32> {
    match op {
        UnaryOp::Neg => if a == i32::MIN {
            None
        } else {
            Some((-a) as i32)
        },
        UnaryOp::Not => Some(!a),
    }
}

/// `a op b` on `i32`, where it does not panic.
pub fn apply_binary(op: BinaryOp, a: i32, b: i32) -> (r: i32)
    requires
        binary_result(op, a, b) is Some,
    ensures
        Some(r) == binary_result(op, a, b),
{
    match op {
        BinaryOp::Add => a + b,
        BinaryOp::Sub => a - b,
        BinaryOp::Mul => a * b,
        BinaryOp::Div => a.checked_div(b).unwrap(),
        BinaryOp::Rem => a.checked_rem(b).unwrap(),
        BinaryOp::BitAnd => a & b,
        BinaryOp::BitOr => a | b,
        BinaryOp::BitXor => a ^ b,
        BinaryOp::Shl => a.wrapping_shl(b as u32),
        BinaryOp::Shr => a.wrapping_shr(b as u32),
    }
}

/// `op a` on `i32`, where it does not overflow.
pub fn apply_unary(op: UnaryOp, a: i32) -> (r: i32)
    requires
        unary_result(op, a) is Some,
    ensures
        Some(r) == unary_result(op, a),
{
    match op {
        UnaryOp::Neg => -a,
        UnaryOp::Not => !a,
    }
}

impl<T> Newtype<T> {
    /// Wraps a value.
    pub fn wrap(inner: T) -> (r: Newtype<T>)
        ensures
            r.inner == inner,
    {
        Newtype { inner }
    }

    /// The wrapped value, borrowed.
    pub fn deref(&self) -> (r: &T)
        ensures
            *r == self.inner,
    {
        &self.inner
    }

    /// The wrapped value, borrowed to be changed in place.
    pub fn deref_mut(&mut self) -> (r: &mut T)
        ensures
            *r == old(self).inner,
            final(self).inner == *final(r),
    {
        &mut self.inner
    }

    /// The wrapped value.
    pub fn into_inner(self) -> (r: T)
        ensures
            r == self.inner,
    {
        self.inner
    }
}

impl<T> From<T> for Newtype<T> {
    fn from(inner: T) -> (r: Newtype<T>) {
        Newtype { inner }
    }
}

impl<T> vstd::std_specs::convert::FromSpecImpl<T> for Newtype<T> {
    open spec fn obeys_from_spec() -> bool {
        true
    }

    open spec fn from_spec(inner: T) -> Newtype<T> {
        Newtype { inner }
    }
}

impl<T: Copy> Newtype<Vec<T>> {
    /// Element `i` of the wrapped vector.
    pub fn index(&self, i: usize) -> (r: T)
        requires
            i < self.inner@.len(),
        ensures
            r == self.inner@[i as int],
    {
        self.inner[i]
    }

    /// Replaces element `i` of the wrapped vector.
    pub fn set_index(&mut self, i: usize, x: T)
        requires
            i < old(self).inner@.len(),
        ensures
            final(self).inner@ == old(self).inner@.update(i as int, x),
    {
        self.inner.set(i, x);
    }
}

/// The sum of a sequence of integers.
pub open spec fn seq_sum(s: Seq<i32>) -> int
    decreases s.len(),
{
    if s.len() == 0 {
        0
    } else {
        seq_sum(s.drop_last()) + s.last()
    }
}

/// The product of a sequence of integers.
pub open spec fn seq_product(s: Seq<i32>) -> int
    decreases s.len(),
{
    if s.len() == 0 {
        1
    } else {
        seq_product(s.drop_last()) * s.last()
    }
}

/// The wrapped values of a sequence of newtypes.
pub open spec fn inners(s: Seq<Newtype<i32>>) -> Seq<i32> {
    s.map_values(|n: Newtype<i32>| n.inner)
}

/// Every running sum, from the left, fits in an `i32`.
pub open spec fn sums_fit(s: Seq<i32>) -> bool {
    forall|k: int| 0 <= k <= s.len() ==> i32::MIN <= #[trigger] seq_sum(s.take(k)) <= i32::MAX
}

/// Every running product, from the left, fits in an `i32`.
pub open spec fn products_fit(s: Seq<i32>) -> bool {
    forall|k: int|
        0 <= k <= s.len() ==> i32::MIN <= #[trigger] seq_product(s.take(k)) <= i32::MAX
}

impl Newtype<i32> {
    /// The wrapped zero.
    pub fn zero() -> (r: Newtype<i32>)
        ensures
            r.inner == 0,
    {
        Newtype { inner: 0 }
    }

    /// The wrapped one.
    pub fn one() -> (r: Newtype<i32>)
        ensures
            r.inner == 1,
    {
        Newtype { inner: 1 }
    }

    /// `self op rhs`, forwarded to the wrapped values.
    pub fn binary(self, op: BinaryOp, rhs: Newtype<i32>) -> (r: Newtype<i32>)
        requires
            binary_result(op, self.inner, rhs.inner) is Some,
        ensures
            Some(r.inner) == binary_result(op, self.inner, rhs.inner),
    {
        Newtype { inner: apply_binary(op, self.inner, rhs.inner) }
    }

    /// `&self op &rhs`, forwarded to the wrapped values.
    pub fn binary_ref(&self, op: BinaryOp, rhs: &Newtype<i32>) -> (r: Newtype<i32>)
        requires
            binary_result(op, self.inner, rhs.inner) is Some,
        ensures
            Some(r.inner) == binary_result(op, self.inner, rhs.inner),
    {
        Newtype { inner: apply_binary(op, self.inner, rhs.inner) }
    }

    /// `self op rhs` with a right-hand side of the wrapped type.
    pub fn binary_rhs(&self, op: BinaryOp, rhs: i32) -> (r: Newtype<i32>)
        requires
            binary_result(op, self.inner, rhs) is Some,
        ensures
            Some(r.inner) == binary_result(op, self.inner, rhs),
    {
        Newtype { inner: apply_binary(op, self.inner, rhs) }
    }

    /// `self op= rhs`, forwarded to the wrapped values.
    pub fn binary_assign(&mut self, op: BinaryOp, rhs: &Newtype<i32>)
        requires
            binary_result(op, old(self).inner, rhs.inner) is Some,
        ensures
            Some(final(self).inner) == binary_result(op, old(self).inner, rhs.inner),
    {
        self.inner = apply_binary(op, self.inner, rhs.inner);
    }

    /// `self op= rhs` with a right-hand side of the wrapped type.
    pub fn binary_assign_rhs(&mut self, op: BinaryOp, rhs: i32)
        requires
            binary_result(op, old(self).inner, rhs) is Some,
        ensures
            Some(final(self).inner) == binary_result(op, old(self).inner, rhs),
    {
        self.inner = apply_binary(op, self.inner, rhs);
    }

    /// `op self`, forwarded to the wrapped value.
    pub fn unary(&self, op: UnaryOp) -> (r: Newtype<i32>)
        requires
            unary_result(op, self.inner) is Some,
        ensures
            Some(r.inner) == unary_result(op, self.inner),
    {
        Newtype { inner: apply_unary(op, self.inner) }
    }

    /// The sum of the wrapped values, wrapped.
    pub fn sum(items: &[Newtype<i32>]) -> (r: Newtype<i32>)
        requires
            sums_fit(inners(items@)),
        ensures
            r.inner == seq_sum(inners(items@)),
    {
        let ghost s = inners(items@);
        let mut acc: i32 = 0;
        let mut i: usize = 0;
        assert(s.take(0) =~= Seq::<i32>::empty());
        while i < items.len()
            invariant
                s == inners(items@),
                sums_fit(s),
                i <= items@.len(),
                acc == seq_sum(s.take(i as int)),
            decreases items@.len() - i,
        {
            assert(s.take(i + 1).drop_last() =~= s.take(i as int));
            assert(seq_sum(s.take(i + 1)) == seq_sum(s.take(i as int)) + s[i as int]);
            acc = acc + items[i].inner;
            i = i + 1;
        }
        assert(s.take(i as int) =~= s);
        Newtype { inner: acc }
    }

    /// The product of the wrapped values, wrapped.
    pub fn product(items: &[Newtype<i32>]) -> (r: Newtype<i32>)
        requires
            products_fit(inners(items@)),
        ensures
            r.inner == seq_product(inners(items@)),
    {
        let ghost s = inners(items@);
        let mut acc: i32 = 1;
        let mut i: usize = 0;
        assert(s.take(0) =~= Seq::<i32>::empty());
        while i < items.len()
            invariant
                s == inners(items@),
                products_fit(s),
                i <= items@.len(),
                acc == seq_product(s.take(i as int)),
            decreases items@.len() - i,
        {
            assert(s.take(i + 1).drop_last() =~= s.take(i as int));
            assert(seq_product(s.take(i + 1)) == seq_product(s.take(i as int)) * s[i as int]);
            assert(i32::MIN <= seq_product(s.take(i + 1)) <= i32::MAX);
            acc = acc * items[i].inner;
            i = i + 1;
        }
        assert(s.take(i as int) =~= s);
        Newtype { inner: acc }
    }
}

/// How the operands of one forwarded binary operator are passed.
#[derive(Debug, PartialEq, Eq)]
pub struct OperandShape {
    pub lhs_by_ref: bool,
    pub rhs_by_ref: bool,
    /// The right-hand side's type where it is not the newtype itself.
    pub rhs_type: Option<String>,
}

/// The argument of a binary operator derivation.
pub enum OperatorArgs {
    /// No argument: both operands by value.
    Plain,
    /// `&self`: both operands by reference.
    BySelfRef,
    /// A type: the newtype by value, a right-hand side of that type.
    WithRhs(String),
    /// `&self` and a type: the newtype by reference, a right-hand side of that type.
    BySelfRefWithRhs(String),
    /// `*`: every combination of by-value and by-reference operands.
    Star,
}

/// One operand shape, as its parts.
pub open spec fn shape(lhs_by_ref: bool, rhs_by_ref: bool, rhs_type: Option<String>) -> OperandShape {
    OperandShape { lhs_by_ref, rhs_by_ref, rhs_type }
}

impl OperatorArgs {
    /// The operand shapes that the argument asks for, in the order they are emitted.
    pub open spec fn shapes_spec(&self) -> Seq<OperandShape> {
        match self {
            OperatorArgs::Plain => seq![shape(false, false, None)],
            OperatorArgs::BySelfRef => seq![shape(true, true, None)],
            OperatorArgs::WithRhs(t) => seq![shape(false, false, Some(*t))],
            OperatorArgs::BySelfRefWithRhs(t) => seq![shape(true, false, Some(*t))],
            OperatorArgs::Star => seq![
                shape(false, false, None),
                shape(true, false, None),
                shape(false, true, None),
                shape(true, true, None),
            ],
        }
    }

    /// The operand shapes that the argument asks for.
    pub fn shapes(&self) -> (r: Vec<OperandShape>)
        ensures
            r@ == self.shapes_spec(),
    {
        let mut r: Vec<OperandShape> = Vec::new();
        match self {
            OperatorArgs::Plain => {
                r.push(OperandShape { lhs_by_ref: false, rhs_by_ref: false, rhs_type: None });
            },
            OperatorArgs::BySelfRef => {
                r.push(OperandShape { lhs_by_ref: true, rhs_by_ref: true, rhs_type: None });
            },
            OperatorArgs::WithRhs(t) => {
                r.push(
                    OperandShape { lhs_by_ref: false, rhs_by_ref: false, rhs_type: Some(t.clone()) },
                );
            },
            OperatorArgs::BySelfRefWithRhs(t) => {
                r.push(
                    OperandShape { lhs_by_ref: true, rhs_by_ref: false, rhs_type: Some(t.clone()) },
                );
            },
            OperatorArgs::Star => {
                r.push(OperandShape { lhs_by_ref: false, rhs_by_ref: false, rhs_type: None });
                r.push(OperandShape { lhs_by_ref: true, rhs_by_ref: false, rhs_type: None });
                r.push(OperandShape { lhs_by_ref: false, rhs_by_ref: true, rhs_type: None });
                r.push(OperandShape { lhs_by_ref: true, rhs_by_ref: true, rhs_type: None });
            },
        }
        assert(r@ =~= self.shapes_spec());
        r
    }
}

} // verus!
