use vstd::prelude::*;

verus! {

/// The error of parsing a string that names no variant of a unit-only enum.
#[derive(Clone, Copy, Debug, PartialEq, Eq, Structural)]
pub struct ParseEnumError;

impl ParseEnumError {
    /// The message that describes this error.
    pub fn description(&self) -> (r: &'static str)
        ensures
            r@ == "provided string did not match any enum variant"@,
    {
        "provided string did not match any enum variant"
    }
}

/// A unit-only enum: its name, the names of its variants in declaration
/// order, and the discriminant of each variant.
///
/// A value of the enum is the index of its variant.
pub struct UnitaryEnum {
    pub name: String,
    pub variants: Vec<String>,
    pub discriminants: Vec<i64>,
}

/// Variant names as character sequences.
pub open spec fn names_of(v: Seq<String>) -> Seq<Seq<char>> {
    v.map_values(|s: String| s@)
}

/// No name occurs twice.
pub open spec fn distinct_names(n: Seq<Seq<char>>) -> bool {
    forall|i: int, j: int| 0 <= i < n.len() && 0 <= j < n.len() && i != j ==> n[i] != n[j]
}

/// The successor of variant `v` in an enum of `len` variants.
pub open spec fn next_of(len: nat, v: usize) -> Option<usize> {
    if v + 1 < len {
        Some((v + 1) as usize)
    } else {
        None
    }
}

/// The predecessor of variant `v`.
pub open spec fn prev_of(v: usize) -> Option<usize> {
    if v > 0 {
        Some((v - 1) as usize)
    } else {
        None
    }
}

impl UnitaryEnum {
    pub open spec fn len(&self) -> nat {
        self.variants@.len()
    }

    pub open spec fn names(&self) -> Seq<Seq<char>> {
        names_of(self.variants@)
    }

    /// Variant names are distinct, and each variant has one discriminant.
    pub open spec fn wf(&self) -> bool {
        &&& distinct_names(self.names())
        &&& self.discriminants@.len() == self.variants@.len()
    }

    /// The number of variants.
    pub fn variant_count(&self) -> (r: usize)
        ensures
            r == self.len(),
    {
        self.variants.len()
    }

    /// The variant declared after `v`, or `None` for the last one.
    pub fn next_variant(&self, v: usize) -> (r: Option<usize>)
        requires
            v < self.len(),
        ensures
            r == next_of(self.len(), v),
    {
        if v < self.variants.len() - 1 {
            Some(v + 1)
        } else {
            None
        }
    }

    /// The variant declared before `v`, or `None` for the first one.
    pub fn prev_variant(&self, v: usize) -> (r: Option<usize>)
        requires
            v < self.len(),
        ensures
            r == prev_of(v),
    {
        if v > 0 {
            Some(v - 1)
        } else {
            None
        }
    }

    /// The text that displays variant `v`: its name.
    pub fn variant_name(&self, v: usize) -> (r: String)
        requires
            v < self.len(),
        ensures
            r@ == self.names()[v as int],
    {
        self.variants[v].clone()
    }

    /// What parsing `s` gives: the variant that it names, else the error.
    pub open spec fn parse_outcome(&self, s: Seq<char>, r: Result<usize, ParseEnumError>) -> bool {
        match r {
            Ok(v) => v < self.len() && self.names()[v as int] == s,
            Err(_) => forall|i: int| 0 <= i < self.len() ==> self.names()[i] != s,
        }
    }

    /// The variant that `s` names.
    pub fn parse_variant(&self, s: &str) -> (r: Result<usize, ParseEnumError>)
        requires
            self.wf(),
        ensures
            self.parse_outcome(s@, r),
    {
        let text = s.to_owned();
        let mut i: usize = 0;
        while i < self.variants.len()
            invariant
                i <= self.len(),
                text@ == s@,
                forall|j: int| 0 <= j < i ==> self.names()[j] != s@,
            decreases self.len() - i,
        {
            if self.variants[i] == text {
                return Ok(i);
            }
            i = i + 1;
        }
        Err(ParseEnumError)
    }

    /// The first variant whose discriminant is `src`; the input itself where
    /// none has it.
    pub fn try_from_discriminant(&self, src: i64) -> (r: Result<usize, i64>)
        requires
            self.discriminants@.len() == self.len(),
        ensures
            match r {
                Ok(v) => v < self.len() && self.discriminants@[v as int] == src
                    && forall|j: int| 0 <= j < v ==> self.discriminants@[j] != src,
                Err(e) => e == src && forall|j: int|
                    0 <= j < self.len() ==> self.discriminants@[j] != src,
            },
    {
        let mut i: usize = 0;
        while i < self.discriminants.len()
            invariant
                i <= self.discriminants@.len(),
                self.discriminants@.len() == self.len(),
                forall|j: int| 0 <= j < i ==> self.discriminants@[j] != src,
            decreases self.discriminants@.len() - i,
        {
            if self.discriminants[i] == src {
                return Ok(i);
            }
            i = i + 1;
        }
        Err(src)
    }

    /// An iterator over the variants in declaration order.
    pub fn iter_variants(&self) -> (r: VariantIter)
        ensures
            r.remaining() == Seq::new(self.len(), |i: int| i as usize),
    {
        VariantIter { pos: 0, end: self.variants.len() }
    }

    /// An iterator over the variant names in declaration order.
    pub fn iter_variant_names(&self) -> (r: VariantNameIter<'_>)
        ensures
            r.remaining() == self.names(),
    {
        VariantNameIter { owner: self, pos: 0 }
    }
}

/// The variants of an enum that are still to come, front first.
pub struct VariantIter {
    pos: usize,
    end: usize,
}

impl VariantIter {
    pub closed spec fn remaining(&self) -> Seq<usize> {
        let n = if self.pos <= self.end {
            (self.end - self.pos) as nat
        } else {
            0
        };
        Seq::new(n, |i: int| (self.pos + i) as usize)
    }

    /// The number of variants still to come, as a lower and an upper bound.
    pub fn size_hint(&self) -> (r: (usize, Option<usize>))
        ensures
            r.0 == self.remaining().len(),
            r.1 == Some(r.0),
    {
        let n = if self.pos < self.end { self.end - self.pos } else { 0 };
        (n, Some(n))
    }

    /// The next variant, if any.
    pub fn next(&mut self) -> (r: Option<usize>)
        ensures
            old(self).remaining().len() == 0 ==> r is None && final(self).remaining() == old(
                self,
            ).remaining(),
            old(self).remaining().len() > 0 ==> r == Some(old(self).remaining()[0])
                && final(self).remaining() == old(self).remaining().drop_first(),
    {
        if self.pos < self.end {
            let v = self.pos;
            self.pos = self.pos + 1;
            assert(self.remaining() =~= old(self).remaining().drop_first());
            Some(v)
        } else {
            None
        }
    }
}

/// The names of an enum's variants that are still to come, front first.
pub struct VariantNameIter<'a> {
    owner: &'a UnitaryEnum,
    pos: usize,
}

impl<'a> VariantNameIter<'a> {
    pub closed spec fn remaining(&self) -> Seq<Seq<char>> {
        if self.pos <= self.owner.len() {
            self.owner.names().skip(self.pos as int)
        } else {
            Seq::empty()
        }
    }

    /// The number of names still to come, as a lower and an upper bound.
    pub fn size_hint(&self) -> (r: (usize, Option<usize>))
        ensures
            r.0 == self.remaining().len(),
            r.1 == Some(r.0),
    {
        let n = if self.pos < self.owner.variants.len() {
            self.owner.variants.len() - self.pos
        } else {
            0
        };
        (n, Some(n))
    }

    /// The next name, if any.
    pub fn next(&mut self) -> (r: Option<String>)
        ensures
            old(self).remaining().len() == 0 ==> r is None && final(self).remaining() == old(
                self,
            ).remaining(),
            old(self).remaining().len() > 0 ==> r is Some && r->0@ == old(self).remaining()[0]
                && final(self).remaining() == old(self).remaining().drop_first(),
    {
        if self.pos < self.owner.variants.len() {
            let s = self.owner.variants[self.pos].clone();
            self.pos = self.pos + 1;
            assert(self.remaining() =~= old(self).remaining().drop_first());
            Some(s)
        } else {
            None
        }
    }
}

/// Lists the variants of an enum.
pub trait IterVariants {
    type Iter;

    fn variants(&self) -> Self::Iter;
}

/// Lists the variant names of an enum.
pub trait IterVariantNames {
    type Iter;

    fn variant_names(&self) -> Self::Iter;
}

/// Picks the variant of an enum that a primitive value stands for.
pub trait TryFrom<Src> {
    type Err;

    fn try_from(&self, src: Src) -> Result<usize, Self::Err>;
}

impl IterVariants for UnitaryEnum {
    type Iter = VariantIter;

    fn variants(&self) -> VariantIter {
        self.iter_variants()
    }
}

impl<'a> IterVariantNames for &'a UnitaryEnum {
    type Iter = VariantNameIter<'a>;

    fn variant_names(&self) -> VariantNameIter<'a> {
        (*self).iter_variant_names()
    }
}

impl TryFrom<i64> for UnitaryEnum {
    type Err = i64;

    fn try_from(&self, src: i64) -> Result<usize, i64> {
        if self.discriminants.len() == self.variants.len() {
            self.try_from_discriminant(src)
        } else {
            Err(src)
        }
    }
}

/// Stepping forward and back are inverse: the successor of every variant but
/// the last has that variant as predecessor, and the other way round; the
/// first variant has no predecessor and the last no successor.
pub proof fn lemma_next_prev_inverse(e: UnitaryEnum, v: usize)
    requires
        v < e.len() <= usize::MAX,
    ensures
        v + 1 < e.len() ==> next_of(e.len(), v) == Some((v + 1) as usize) && prev_of(
            (v + 1) as usize,
        ) == Some(v),
        v > 0 ==> prev_of(v) == Some((v - 1) as usize) && next_of(e.len(), (v - 1) as usize)
            == Some(v),
        prev_of(0) is None,
        v + 1 == e.len() ==> next_of(e.len(), v) is None,
{
}

/// Parsing the displayed name of a variant gives back that variant.
pub proof fn lemma_display_parse_round_trip(
    e: UnitaryEnum,
    v: usize,
    r: Result<usize, ParseEnumError>,
)
    requires
        e.wf(),
        v < e.len(),
        e.parse_outcome(e.names()[v as int], r),
    ensures
        r == Ok::<usize, ParseEnumError>(v),
{
    if let Ok(w) = r {
        assert(e.names()[w as int] == e.names()[v as int]);
    } else {
        assert(e.names()[v as int] != e.names()[v as int]);
    }
}

/// Parsing a string that names no variant gives the parse error.
pub proof fn lemma_parse_unknown(e: UnitaryEnum, s: Seq<char>, r: Result<usize, ParseEnumError>)
    requires
        forall|i: int| 0 <= i < e.len() ==> e.names()[i] != s,
        e.parse_outcome(s, r),
    ensures
        r is Err,
{
    if let Ok(w) = r {
        assert(e.names()[w as int] == s);
    }
}

/// The variants come in declaration order: after `k` steps from a fresh
/// iterator the variants `k, k + 1, ...` remain, `len - k` of them, and the
/// first of them is `k`; an enum without variants yields nothing.
pub proof fn lemma_iteration_order(e: UnitaryEnum, k: nat)
    requires
        k <= e.len(),
    ensures
        Seq::new(e.len(), |i: int| i as usize).skip(k as int) == Seq::new(
            (e.len() - k) as nat,
            |i: int| (i + k) as usize,
        ),
        Seq::new(e.len(), |i: int| i as usize).skip(k as int).len() == e.len() - k,
        k < e.len() ==> Seq::new(e.len(), |i: int| i as usize).skip(k as int)[0] == k as usize,
        e.len() == 0 ==> Seq::new(e.len(), |i: int| i as usize).len() == 0,
{
    assert(Seq::new(e.len(), |i: int| i as usize).skip(k as int) =~= Seq::new(
        (e.len() - k) as nat,
        |i: int| (i + k) as usize,
    ));
}

} // verus!
