use vstd::prelude::*;
use crate::unitary::{UnitaryEnum, distinct_names, names_of};

verus! {

/// What a variant carries after its name.
pub enum Payload {
    /// Nothing: `A`.
    Unit,
    /// Positional fields, by type: `A(T, U)`.
    Tuple(Vec<String>),
    /// Named fields, by name and type: `A { x: T }`.
    Record(Vec<(String, String)>),
}

/// One variant of an enum declaration.
pub struct VariantDef {
    pub name: String,
    pub payload: Payload,
    /// The value written after `=`, if any.
    pub discriminant: Option<i64>,
}

/// An enum declaration: its name and its variants in declaration order.
pub struct EnumDef {
    pub name: String,
    pub variants: Vec<VariantDef>,
}

/// Why a derivation does not apply to an enum; each names the variant at fault.
#[derive(Debug, PartialEq, Eq)]
pub enum ShapeError {
    /// The variant carries a payload where only unit variants are accepted.
    NonUnitaryVariant(String),
    /// The variant does not carry exactly one positional field.
    NonUnaryVariant(String),
    /// The variant has the name of an earlier one.
    DuplicateVariant(String),
    /// The variant's payload type is that of an earlier one.
    DuplicatePayloadType(String),
    /// The variant's implicit discriminant is past the largest `i64`.
    DiscriminantOverflow(String),
}

/// How the variants of an enum are shaped.
#[derive(Clone, Copy, Debug, PartialEq, Eq, Structural)]
pub enum EnumKind {
    /// Every variant is a unit variant (an enum without variants is one).
    Unitary,
    /// Some variant carries a payload, and every such payload is positional.
    TupleVariants,
    /// Some variant has named fields.
    Mixed,
}

/// The names of a sequence of variants.
pub open spec fn variant_names(v: Seq<VariantDef>) -> Seq<Seq<char>> {
    v.map_values(|d: VariantDef| d.name@)
}

/// The discriminant of variant `i`: the value written for it, else one more
/// than that of the variant before, and zero for the first.
pub open spec fn discriminant_at(v: Seq<VariantDef>, i: int) -> int
    decreases i + 1,
{
    if i < 0 {
        -1
    } else {
        match v[i].discriminant {
            Some(d) => d as int,
            None => discriminant_at(v, i - 1) + 1,
        }
    }
}

/// Variant `k` has the name of a variant before it.
pub open spec fn repeats_name(v: Seq<VariantDef>, k: int) -> bool {
    exists|j: int| 0 <= j < k && v[j].name@ == v[k].name@
}

/// Variant `k` has a single positional field, of type `t`.
pub open spec fn unary_type(v: Seq<VariantDef>, k: int, t: Seq<char>) -> bool {
    match v[k].payload {
        Payload::Tuple(f) => f@.len() == 1 && f@[0]@ == t,
        _ => false,
    }
}

/// Variant `k` has a single positional field.
pub open spec fn is_unary(v: Seq<VariantDef>, k: int) -> bool {
    match v[k].payload {
        Payload::Tuple(f) => f@.len() == 1,
        _ => false,
    }
}

/// The type of the single positional field of variant `k`.
pub open spec fn unary_field(v: Seq<VariantDef>, k: int) -> Seq<char> {
    match v[k].payload {
        Payload::Tuple(f) => f@[0]@,
        _ => Seq::empty(),
    }
}

/// Variant `k` carries the payload type of a variant before it.
pub open spec fn repeats_payload(v: Seq<VariantDef>, k: int) -> bool {
    exists|j: int| 0 <= j < k && unary_field(v, j) == unary_field(v, k)
}

/// What keeps variant `k` from standing in a unit-only enum, if anything.
pub open spec fn unitary_fault(v: Seq<VariantDef>, k: int) -> Option<ShapeError> {
    if !(v[k].payload is Unit) {
        Some(ShapeError::NonUnitaryVariant(v[k].name))
    } else if repeats_name(v, k) {
        Some(ShapeError::DuplicateVariant(v[k].name))
    } else if v[k].discriminant is None && discriminant_at(v, k - 1) == i64::MAX {
        Some(ShapeError::DiscriminantOverflow(v[k].name))
    } else {
        None
    }
}

/// What keeps variant `k` from standing in an enum of single-field
/// variants with distinct payload types, if anything.
pub open spec fn unary_fault(v: Seq<VariantDef>, k: int) -> Option<ShapeError> {
    if !is_unary(v, k) {
        Some(ShapeError::NonUnaryVariant(v[k].name))
    } else if repeats_name(v, k) {
        Some(ShapeError::DuplicateVariant(v[k].name))
    } else if repeats_payload(v, k) {
        Some(ShapeError::DuplicatePayloadType(v[k].name))
    } else {
        None
    }
}

/// The error that the unit-only check reports: the fault of the first
/// variant that has one.
pub open spec fn first_unitary_fault(v: Seq<VariantDef>, e: ShapeError) -> bool {
    exists|k: int|
        0 <= k < v.len() && unitary_fault(v, k) == Some(e) && forall|j: int|
            0 <= j < k ==> (#[trigger] unitary_fault(v, j)) is None
}

/// The error that the single-field check reports: the fault of the first
/// variant that has one.
pub open spec fn first_unary_fault(v: Seq<VariantDef>, e: ShapeError) -> bool {
    exists|k: int|
        0 <= k < v.len() && unary_fault(v, k) == Some(e) && forall|j: int|
            0 <= j < k ==> (#[trigger] unary_fault(v, j)) is None
}

/// An enum all of whose variants carry one positional field, the payload
/// types distinct. A value of it is a variant index and a payload.
pub struct UnaryEnum {
    pub name: String,
    pub variants: Vec<String>,
    pub payload_types: Vec<String>,
}

impl UnaryEnum {
    pub open spec fn len(&self) -> nat {
        self.variants@.len()
    }

    pub open spec fn types(&self) -> Seq<Seq<char>> {
        names_of(self.payload_types@)
    }

    /// Names are distinct, payload types are distinct, one type per variant.
    pub open spec fn wf(&self) -> bool {
        &&& distinct_names(names_of(self.variants@))
        &&& distinct_names(self.types())
        &&& self.payload_types@.len() == self.variants@.len()
    }
}

/// Whether the variants before `i` include one named like variant `i`.
fn name_seen(v: &Vec<VariantDef>, i: usize) -> (r: bool)
    requires
        i < v@.len(),
    ensures
        r == repeats_name(v@, i as int),
{
    let mut j: usize = 0;
    while j < i
        invariant
            j <= i < v@.len(),
            forall|m: int| 0 <= m < j ==> v@[m].name@ != v@[i as int].name@,
        decreases i - j,
    {
        if v[j].name == v[i].name {
            return true;
        }
        j = j + 1;
    }
    false
}

impl EnumDef {
    /// How the variants are shaped.
    pub open spec fn kind_spec(&self) -> EnumKind {
        if forall|k: int| 0 <= k < self.variants@.len() ==> self.variants@[k].payload is Unit {
            EnumKind::Unitary
        } else if exists|k: int|
            0 <= k < self.variants@.len() && self.variants@[k].payload is Record {
            EnumKind::Mixed
        } else {
            EnumKind::TupleVariants
        }
    }

    /// How the variants are shaped.
    pub fn kind(&self) -> (r: EnumKind)
        ensures
            r == self.kind_spec(),
    {
        let mut all_unit = true;
        let mut i: usize = 0;
        while i < self.variants.len()
            invariant
                i <= self.variants@.len(),
                all_unit == forall|k: int| 0 <= k < i ==> self.variants@[k].payload is Unit,
                forall|k: int| 0 <= k < i ==> !(self.variants@[k].payload is Record),
            decreases self.variants@.len() - i,
        {
            match &self.variants[i].payload {
                Payload::Unit => {},
                Payload::Tuple(_) => {
                    all_unit = false;
                },
                Payload::Record(_) => {
                    return EnumKind::Mixed;
                },
            }
            i = i + 1;
        }
        if all_unit {
            EnumKind::Unitary
        } else {
            EnumKind::TupleVariants
        }
    }

    /// What checking the enum as a unit-only enum gives: the enum with the
    /// discriminant of each variant where no variant is at fault, else the
    /// fault of the first variant that is.
    pub open spec fn unitary_outcome(&self, r: Result<UnitaryEnum, ShapeError>) -> bool {
        match r {
            Ok(u) => {
                &&& forall|k: int|
                    0 <= k < self.variants@.len() ==> unitary_fault(self.variants@, k) is None
                &&& u.wf()
                &&& u.name == self.name
                &&& u.names() == variant_names(self.variants@)
                &&& forall|k: int|
                    0 <= k < u.len() ==> u.discriminants@[k] == discriminant_at(
                        self.variants@,
                        k,
                    )
            },
            Err(e) => first_unitary_fault(self.variants@, e),
        }
    }

    /// The enum as a unit-only enum, with the discriminant of each variant;
    /// the first variant at fault otherwise.
    pub fn to_unitary(&self) -> (r: Result<UnitaryEnum, ShapeError>)
        ensures
            self.unitary_outcome(r),
    {
        let ghost v = self.variants@;
        let mut names: Vec<String> = Vec::new();
        let mut discriminants: Vec<i64> = Vec::new();
        let mut prev: i64 = -1;
        let mut i: usize = 0;
        while i < self.variants.len()
            invariant
                v == self.variants@,
                i <= v.len(),
                names@.len() == i,
                discriminants@.len() == i,
                prev as int == discriminant_at(v, i - 1),
                forall|k: int| 0 <= k < i ==> unitary_fault(v, k) is None,
                forall|k: int| 0 <= k < i ==> names@[k] == v[k].name,
                forall|k: int| 0 <= k < i ==> discriminants@[k] == discriminant_at(v, k),
            decreases v.len() - i,
        {
            let d = &self.variants[i];
            if !matches!(d.payload, Payload::Unit) {
                let e = ShapeError::NonUnitaryVariant(d.name.clone());
                assert(unitary_fault(v, i as int) == Some(e));
                return Err(e);
            }
            if name_seen(&self.variants, i) {
                let e = ShapeError::DuplicateVariant(d.name.clone());
                assert(unitary_fault(v, i as int) == Some(e));
                return Err(e);
            }
            let value = match d.discriminant {
                Some(x) => x,
                None => {
                    if prev == i64::MAX {
                        let e = ShapeError::DiscriminantOverflow(d.name.clone());
                        assert(unitary_fault(v, i as int) == Some(e));
                        return Err(e);
                    }
                    prev + 1
                },
            };
            assert(unitary_fault(v, i as int) is None);
            assert(value as int == discriminant_at(v, i as int));
            names.push(d.name.clone());
            discriminants.push(value);
            prev = value;
            i = i + 1;
        }
        let u = UnitaryEnum { name: self.name.clone(), variants: names, discriminants };
        assert(u.names() =~= variant_names(v));
        assert forall|a: int, b: int|
            0 <= a < u.len() && 0 <= b < u.len() && a != b implies u.names()[a] != u.names()[b] by {
            let (lo, hi) = if a < b { (a, b) } else { (b, a) };
            assert(unitary_fault(v, hi) is None);
            assert(!repeats_name(v, hi));
        }
        Ok(u)
    }

    /// What checking the enum as one of single-field variants gives: the
    /// enum where no variant is at fault, else the fault of the first variant
    /// that is.
    pub open spec fn unary_outcome(&self, r: Result<UnaryEnum, ShapeError>) -> bool {
        match r {
            Ok(u) => {
                &&& forall|k: int|
                    0 <= k < self.variants@.len() ==> unary_fault(self.variants@, k) is None
                &&& u.wf()
                &&& u.name == self.name
                &&& names_of(u.variants@) == variant_names(self.variants@)
                &&& forall|k: int|
                    0 <= k < u.len() ==> u.types()[k] == unary_field(self.variants@, k)
            },
            Err(e) => first_unary_fault(self.variants@, e),
        }
    }

    /// The enum as one of single-field variants with distinct payload types;
    /// the first variant at fault otherwise.
    pub fn to_unary(&self) -> (r: Result<UnaryEnum, ShapeError>)
        ensures
            self.unary_outcome(r),
    {
        let ghost v = self.variants@;
        let mut names: Vec<String> = Vec::new();
        let mut types: Vec<String> = Vec::new();
        let mut i: usize = 0;
        while i < self.variants.len()
            invariant
                v == self.variants@,
                i <= v.len(),
                names@.len() == i,
                types@.len() == i,
                forall|k: int| 0 <= k < i ==> unary_fault(v, k) is None,
                forall|k: int| 0 <= k < i ==> names@[k] == v[k].name,
                forall|k: int| 0 <= k < i ==> types@[k]@ == unary_field(v, k),
            decreases v.len() - i,
        {
            let d = &self.variants[i];
            let ty = match &d.payload {
                Payload::Tuple(f) => {
                    if f.len() != 1 {
                        let e = ShapeError::NonUnaryVariant(d.name.clone());
                        assert(unary_fault(v, i as int) == Some(e));
                        return Err(e);
                    }
                    f[0].clone()
                },
                _ => {
                    let e = ShapeError::NonUnaryVariant(d.name.clone());
                    assert(unary_fault(v, i as int) == Some(e));
                    return Err(e);
                },
            };
            assert(is_unary(v, i as int));
            if name_seen(&self.variants, i) {
                let e = ShapeError::DuplicateVariant(d.name.clone());
                assert(unary_fault(v, i as int) == Some(e));
                return Err(e);
            }
            let mut j: usize = 0;
            while j < i
                invariant
                    v == self.variants@,
                    j <= i < v.len(),
                    types@.len() == i,
                    ty@ == unary_field(v, i as int),
                    is_unary(v, i as int),
                    !repeats_name(v, i as int),
                    d.name == v[i as int].name,
                    forall|k: int| 0 <= k < i ==> unary_fault(v, k) is None,
                    forall|k: int| 0 <= k < i ==> types@[k]@ == unary_field(v, k),
                    forall|m: int| 0 <= m < j ==> unary_field(v, m) != unary_field(v, i as int),
                decreases i - j,
            {
                if types[j] == ty {
                    let e = ShapeError::DuplicatePayloadType(d.name.clone());
                    assert(unary_field(v, j as int) == unary_field(v, i as int));
                    assert(repeats_payload(v, i as int));
                    assert(unary_fault(v, i as int) == Some(e));
                    return Err(e);
                }
                j = j + 1;
            }
            assert(unary_fault(v, i as int) is None);
            names.push(d.name.clone());
            types.push(ty);
            i = i + 1;
        }
        let u = UnaryEnum { name: self.name.clone(), variants: names, payload_types: types };
        assert(names_of(u.variants@) =~= variant_names(v));
        let ghost n = names_of(u.variants@);
        assert forall|a: int, b: int| 0 <= a < n.len() && 0 <= b < n.len() && a != b implies n[a]
            != n[b] by {
            let (lo, hi) = if a < b { (a, b) } else { (b, a) };
            assert(unary_fault(v, hi) is None);
            assert(!repeats_name(v, hi));
            assert(n[lo] == v[lo].name@);
            assert(n[hi] == v[hi].name@);
        }
        assert forall|a: int, b: int|
            0 <= a < u.len() && 0 <= b < u.len() && a != b implies u.types()[a] != u.types()[b] by {
            let (lo, hi) = if a < b { (a, b) } else { (b, a) };
            assert(unary_fault(v, hi) is None);
            assert(!repeats_payload(v, hi));
            assert(u.types()[lo] == unary_field(v, lo));
            assert(u.types()[hi] == unary_field(v, hi));
        }
        assert(distinct_names(names_of(u.variants@)));
        assert(distinct_names(u.types()));
        assert(forall|k: int| 0 <= k < u.len() ==> u.types()[k] == unary_field(v, k));
        Ok(u)
    }
}

/// A value of an enum of single-field variants: which variant, and what it
/// carries.
#[derive(Clone, Copy, Debug, PartialEq, Eq)]
pub struct EnumValue<P> {
    pub variant: usize,
    pub payload: P,
}

impl<P> EnumValue<P> {
    /// The payload, borrowed.
    pub fn inner(&self) -> (r: &P)
        ensures
            *r == self.payload,
    {
        &self.payload
    }

    /// The payload, borrowed to be changed in place.
    pub fn inner_mut(&mut self) -> (r: &mut P)
        ensures
            *r == old(self).payload,
            final(self).payload == *final(r),
            final(self).variant == old(self).variant,
    {
        &mut self.payload
    }

    /// The variant, which is also the variant of the payload-free tag enum.
    pub fn tag(&self) -> (r: usize)
        ensures
            r == self.variant,
    {
        self.variant
    }
}

impl UnaryEnum {
    /// What looking up the variant of payload type `t` gives.
    pub open spec fn from_inner_outcome(&self, t: Seq<char>, r: Option<usize>) -> bool {
        match r {
            Some(v) => v < self.len() && self.types()[v as int] == t,
            None => forall|i: int| 0 <= i < self.len() ==> self.types()[i] != t,
        }
    }

    /// The variant whose payload type is `ty`.
    pub fn from_inner(&self, ty: &str) -> (r: Option<usize>)
        requires
            self.wf(),
        ensures
            self.from_inner_outcome(ty@, r),
    {
        let text = ty.to_owned();
        let mut i: usize = 0;
        while i < self.payload_types.len()
            invariant
                i <= self.len(),
                self.wf(),
                text@ == ty@,
                forall|j: int| 0 <= j < i ==> self.types()[j] != ty@,
            decreases self.len() - i,
        {
            if self.payload_types[i] == text {
                return Some(i);
            }
            i = i + 1;
        }
        None
    }

    /// A payload of type `ty`, lifted into the variant that carries it.
    pub fn lift<P>(&self, ty: &str, payload: P) -> (r: Option<EnumValue<P>>)
        requires
            self.wf(),
        ensures
            match r {
                Some(x) => self.from_inner_outcome(ty@, Some(x.variant)) && x.payload == payload,
                None => self.from_inner_outcome(ty@, None),
            },
    {
        match self.from_inner(ty) {
            Some(v) => Some(EnumValue { variant: v, payload }),
            None => None,
        }
    }

    /// The payload-free enum with the same variant names, named `tag_name`.
    pub fn tag_enum(&self, tag_name: String) -> (r: UnitaryEnum)
        requires
            self.wf(),
            self.len() <= i64::MAX,
        ensures
            r.wf(),
            r.name == tag_name,
            r.names() == names_of(self.variants@),
            forall|k: int| 0 <= k < r.len() ==> r.discriminants@[k] == k,
    {
        let mut names: Vec<String> = Vec::new();
        let mut discriminants: Vec<i64> = Vec::new();
        let mut i: usize = 0;
        while i < self.variants.len()
            invariant
                i <= self.len() <= i64::MAX,
                names@.len() == i,
                discriminants@.len() == i,
                forall|k: int| 0 <= k < i ==> names@[k] == self.variants@[k],
                forall|k: int| 0 <= k < i ==> discriminants@[k] == k,
            decreases self.len() - i,
        {
            names.push(self.variants[i].clone());
            discriminants.push(i as i64);
            i = i + 1;
        }
        let r = UnitaryEnum { name: tag_name, variants: names, discriminants };
        assert(r.names() =~= names_of(self.variants@));
        r
    }
}

/// Lifting a payload finds the variant that carries its type: for each
/// variant, a payload of that variant's own type goes to that variant.
pub proof fn lemma_lift_own_payload(u: UnaryEnum, v: usize, r: Option<usize>)
    requires
        u.wf(),
        v < u.len(),
        u.from_inner_outcome(u.types()[v as int], r),
    ensures
        r == Some(v),
{
    if let Some(w) = r {
        assert(u.types()[w as int] == u.types()[v as int]);
    } else {
        assert(u.types()[v as int] != u.types()[v as int]);
    }
}

/// A unit-only derivation refuses every enum with a variant that carries a
/// payload, and classifies no such enum as unit-only.
pub proof fn lemma_payload_variant_rejected(
    e: EnumDef,
    k: int,
    r: Result<UnitaryEnum, ShapeError>,
)
    requires
        0 <= k < e.variants@.len(),
        !(e.variants@[k].payload is Unit),
        e.unitary_outcome(r),
    ensures
        r is Err,
        e.kind_spec() != EnumKind::Unitary,
{
    assert(unitary_fault(e.variants@, k) is Some);
}

} // verus!
