use vstd::prelude::*;
use crate::newtype::Newtype;
use crate::syntax::push_char;

verus! {

/// How a struct lays out its fields.
#[derive(Clone, Copy, Debug, PartialEq, Eq, Structural)]
pub enum StructKind {
    /// `struct S;`
    Unit,
    /// `struct S(T, U);`
    Tuple,
    /// `struct S { a: T }`
    Record,
}

/// One field of a struct.
#[derive(Debug)]
pub struct FieldDef {
    /// The field's name; `None` for a positional field.
    pub name: Option<String>,
    pub ty: String,
    pub is_pub: bool,
}

/// A field as plain values: its name, its type and whether it is public.
pub open spec fn field_view(f: FieldDef) -> (Option<Seq<char>>, Seq<char>, bool) {
    (
        match f.name {
            Some(n) => Some(n@),
            None => None,
        },
        f.ty@,
        f.is_pub,
    )
}

/// A struct declaration: its name, its layout and its fields in order.
#[derive(Debug)]
pub struct StructDef {
    pub name: String,
    pub kind: StructKind,
    pub fields: Vec<FieldDef>,
}

/// The decimal digits of `n`, most significant first, without leading zeros.
pub open spec fn digits(n: nat) -> Seq<char>
    decreases n,
{
    if n < 10 {
        seq![(n + '0' as nat) as char]
    } else {
        digits(n / 10).push(((n % 10) + '0' as nat) as char)
    }
}

/// The identifier that stands for positional field `i`: `_ord_` and the
/// field's number, counted from one, with at least two digits.
pub open spec fn ordinal_ident(i: nat) -> Seq<char> {
    let n = i + 1;
    if n < 10 {
        "_ord_0"@ + digits(n)
    } else {
        "_ord_"@ + digits(n)
    }
}

/// The identifier that stands for positional field `i`.
pub fn ordinal_name(i: usize) -> (r: String)
    requires
        i < usize::MAX,
    ensures
        r@ == ordinal_ident(i as nat),
{
    let n = i + 1;
    let mut rev: Vec<char> = Vec::new();
    let mut m: usize = n;
    while m >= 10
        invariant
            1 <= n,
            digits(n as nat) == digits(m as nat) + rev@.reverse(),
        decreases m,
    {
        proof {
            assert(digits(m as nat) == digits((m / 10) as nat).push(
                ((m % 10) as nat + '0' as nat) as char,
            ));
        }
        let d = ((m % 10) as u8 + 48u8) as char;
        assert(d == ((m % 10) as nat + '0' as nat) as char);
        rev.push(d);
        assert(rev@.reverse() =~= seq![d] + rev@.drop_last().reverse());
        m = m / 10;
    }
    let mut out = if n < 10 {
        String::from_str("_ord_0")
    } else {
        String::from_str("_ord_")
    };
    let first = (m as u8 + 48u8) as char;
    assert(digits(m as nat) == seq![first]);
    push_char(&mut out, first);
    let mut k: usize = rev.len();
    while k > 0
        invariant
            k <= rev@.len(),
            digits(n as nat) == seq![first] + rev@.reverse(),
            out@ == (if n < 10 { "_ord_0"@ } else { "_ord_"@ }) + seq![first] + rev@.subrange(
                k as int,
                rev@.len() as int,
            ).reverse(),
        decreases k,
    {
        k = k - 1;
        push_char(&mut out, rev[k]);
        assert(rev@.subrange(k as int, rev@.len() as int).reverse() =~= rev@.subrange(
            k + 1,
            rev@.len() as int,
        ).reverse().push(rev@[k as int]));
    }
    assert(rev@.subrange(0, rev@.len() as int) =~= rev@);
    out
}

/// Why a field cannot be reached by its type.
#[derive(Clone, Copy, Debug, PartialEq, Eq, Structural)]
pub enum TypeIndexError {
    /// No field has the type.
    Missing,
    /// Two or more fields have the type.
    Ambiguous,
}

impl StructDef {
    /// A unit struct has no field, a tuple struct only positional ones, a
    /// record struct only named ones.
    pub open spec fn wf(&self) -> bool {
        match self.kind {
            StructKind::Unit => self.fields@.len() == 0,
            StructKind::Tuple => forall|i: int|
                0 <= i < self.fields@.len() ==> (#[trigger] self.fields@[i]).name is None,
            StructKind::Record => forall|i: int|
                0 <= i < self.fields@.len() ==> (#[trigger] self.fields@[i]).name is Some,
        }
    }

    /// The number of fields of type `t` among the first `n`.
    pub open spec fn count_of_type(&self, t: Seq<char>, n: int) -> nat
        decreases n,
    {
        if n <= 0 {
            0
        } else if self.fields@[n - 1].ty@ == t {
            self.count_of_type(t, n - 1) + 1
        } else {
            self.count_of_type(t, n - 1)
        }
    }

    /// The number of fields.
    pub fn num_fields(&self) -> (r: usize)
        ensures
            r == self.fields@.len(),
    {
        self.fields.len()
    }

    /// The parameters of a constructor, in field order: each field's name,
    /// or for a positional field its ordinal identifier, and its type.
    pub fn constructor_params(&self) -> (r: Vec<(String, String)>)
        requires
            self.fields@.len() < usize::MAX,
        ensures
            r@.len() == self.fields@.len(),
            forall|i: int|
                0 <= i < r@.len() ==> r@[i].1 == self.fields@[i].ty && r@[i].0@ == match self.fields@[i].name {
                    Some(n) => n@,
                    None => ordinal_ident(i as nat),
                },
    {
        let mut r: Vec<(String, String)> = Vec::new();
        let mut i: usize = 0;
        while i < self.fields.len()
            invariant
                i <= self.fields@.len() < usize::MAX,
                r@.len() == i,
                forall|k: int|
                    0 <= k < i ==> r@[k].1 == self.fields@[k].ty && r@[k].0@ == match self.fields@[k].name {
                        Some(n) => n@,
                        None => ordinal_ident(k as nat),
                    },
            decreases self.fields@.len() - i,
        {
            let name = match &self.fields[i].name {
                Some(n) => n.clone(),
                None => ordinal_name(i),
            };
            r.push((name, self.fields[i].ty.clone()));
            i = i + 1;
        }
        r
    }

    /// The one field of type `ty`.
    pub fn type_index(&self, ty: &str) -> (r: Result<usize, TypeIndexError>)
        ensures
            match r {
                Ok(i) => i < self.fields@.len() && self.fields@[i as int].ty@ == ty@
                    && self.count_of_type(ty@, self.fields@.len() as int) == 1,
                Err(TypeIndexError::Missing) => self.count_of_type(
                    ty@,
                    self.fields@.len() as int,
                ) == 0,
                Err(TypeIndexError::Ambiguous) => self.count_of_type(
                    ty@,
                    self.fields@.len() as int,
                ) >= 2,
            },
    {
        let text = ty.to_owned();
        let mut found: Option<usize> = None;
        let mut i: usize = 0;
        while i < self.fields.len()
            invariant
                text@ == ty@,
                i <= self.fields@.len(),
                match found {
                    None => self.count_of_type(ty@, i as int) == 0,
                    Some(f) => f < i && self.fields@[f as int].ty@ == ty@ && self.count_of_type(
                        ty@,
                        i as int,
                    ) == 1,
                },
            decreases self.fields@.len() - i,
        {
            if self.fields[i].ty == text {
                if found.is_some() {
                    proof {
                        lemma_count_grows(self, ty@, i as int + 1, self.fields@.len() as int);
                    }
                    return Err(TypeIndexError::Ambiguous);
                }
                found = Some(i);
            }
            i = i + 1;
        }
        match found {
            Some(f) => Ok(f),
            None => Err(TypeIndexError::Missing),
        }
    }
}

/// Counting over more fields never gives less.
proof fn lemma_count_grows(s: &StructDef, t: Seq<char>, m: int, n: int)
    requires
        0 <= m <= n,
    ensures
        s.count_of_type(t, m) <= s.count_of_type(t, n),
    decreases n - m,
{
    if m < n {
        lemma_count_grows(s, t, m, n - 1);
    }
}

/// Reaches the field of a struct that has type `Index`.
pub trait TypeIndex<Index> {
    fn type_index(&self) -> &Index;
}

/// Reaches, to change it, the field of a struct that has type `Index`.
pub trait TypeIndexMut<Index> {
    fn type_index_mut(&mut self) -> &mut Index;
}

impl<T> TypeIndex<T> for Newtype<T> {
    fn type_index(&self) -> &T {
        &self.inner
    }
}

impl<T> TypeIndexMut<T> for Newtype<T> {
    fn type_index_mut(&mut self) -> &mut T {
        &mut self.inner
    }
}

} // verus!
